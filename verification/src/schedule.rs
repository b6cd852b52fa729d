use vstd::prelude::*;
use crate::combine::{
    absorbed_by, absorption, after_absorb, after_absorbs, after_combine, after_contact,
    after_contacts, combine_player, combined, highlight_combinable_entity,
};
use crate::events::{CollisionEvent, KeyboardInput};
use crate::player::{
    after_ground_contacts, after_jump, after_landing, after_move, jump_player, jumps,
    move_player, reset_is_grounded, sensor_owner, Grounded,
};
use crate::world::{Entity, World, WorldView};

verus! {

/// What one frame brings: the collision events of the physics step, in the
/// order in which they were reported, and the state of the keys.
pub struct Frame {
    pub events: Seq<CollisionEvent>,
    pub input: KeyboardInput,
}

/// The world as the movement controller finds it in a frame: after the
/// grounded-state tracker and the highlight and candidate tracker have each
/// gone through all events of the frame.
pub open spec fn before_move(w: WorldView, frame: Frame) -> WorldView {
    after_contacts(after_ground_contacts(w, frame.events), frame.events)
}

/// The world as the jump action finds it in a frame.
pub open spec fn before_jump(w: WorldView, frame: Frame) -> WorldView {
    after_move(before_move(w, frame), frame.input)
}

/// The world as the combine executor finds it in a frame.
pub open spec fn before_combine(w: WorldView, frame: Frame) -> WorldView {
    after_jump(before_jump(w, frame), frame.input.jump_just_pressed)
}

/// The world at the end of a frame.
pub open spec fn after_frame(w: WorldView, frame: Frame) -> WorldView {
    after_combine(before_combine(w, frame), frame.input.confirm_just_pressed)
}

/// The entities that are absorbed in a frame.
pub open spec fn removed_in(w: WorldView, frame: Frame) -> Seq<Entity> {
    combined(before_combine(w, frame), frame.input.confirm_just_pressed)
}

/// The world after a run of frames.
pub open spec fn after_frames(w: WorldView, frames: Seq<Frame>) -> WorldView
    decreases frames.len(),
{
    if frames.len() == 0 {
        w
    } else {
        after_frame(after_frames(w, frames.drop_last()), frames.last())
    }
}

/// Runs one frame of the simulation. The four systems run once each, in a
/// fixed order, and each of the two trackers goes through all events of the
/// frame on its own: first the grounded-state tracker, then the highlight
/// and candidate tracker, then the movement controller with the jump
/// action, and last the combine executor. Returns the entities that were
/// absorbed.
pub fn run_frame(world: &mut World, events: &[CollisionEvent], keyboard_input: &KeyboardInput) -> (removed:
    Vec<Entity>)
    ensures
        final(world)@ == after_frame(
            old(world)@,
            (Frame { events: events@, input: *keyboard_input }),
        ),
        removed@ == removed_in(old(world)@, (Frame { events: events@, input: *keyboard_input })),
{
    reset_is_grounded(world, events);
    highlight_combinable_entity(world, events);
    move_player(world, keyboard_input);
    jump_player(world, keyboard_input);
    combine_player(world, keyboard_input)
}

/// Whether a step from `before` to `after` leaves the stores alone but for
/// new materials: the highlight material is the same handle, every stored
/// material and mesh is what it was, and no mesh has come.
pub open spec fn keeps_assets(before: WorldView, after: WorldView) -> bool {
    &&& after.highlight == before.highlight
    &&& after.meshes == before.meshes
    &&& after.entities.len() == before.entities.len()
    &&& before.materials.len() <= after.materials.len()
    &&& forall|h: int|
        0 <= h < before.materials.len() ==> #[trigger] after.materials[h] == before.materials[h]
}

/// Whether two worlds have the same stores, the same highlight material
/// and as many slots.
pub open spec fn same_assets(a: WorldView, b: WorldView) -> bool {
    &&& a.highlight == b.highlight
    &&& a.materials == b.materials
    &&& a.meshes == b.meshes
    &&& a.entities.len() == b.entities.len()
}

/// The grounded-state tracker leaves the stores alone.
pub proof fn lemma_ground_contacts_keep_assets(w: WorldView, events: Seq<CollisionEvent>)
    ensures
        same_assets(w, after_ground_contacts(w, events)),
    decreases events.len(),
{
    if events.len() > 0 {
        let before = after_ground_contacts(w, events.drop_last());
        lemma_ground_contacts_keep_assets(w, events.drop_last());
        match events.last() {
            CollisionEvent::Started(a, b) => {
                let mid = after_landing(before, a);
                assert(same_assets(before, mid));
                assert(same_assets(mid, after_landing(mid, b)));
            },
            CollisionEvent::Stopped(_, _) => {},
        }
    }
}

/// The highlight and candidate tracker leaves the stores alone.
pub proof fn lemma_contacts_keep_assets(w: WorldView, events: Seq<CollisionEvent>)
    ensures
        same_assets(w, after_contacts(w, events)),
    decreases events.len(),
{
    if events.len() > 0 {
        let before = after_contacts(w, events.drop_last());
        lemma_contacts_keep_assets(w, events.drop_last());
        assert(same_assets(before, after_contact(before, events.last())));
    }
}

/// The combine executor only adds materials to the stores.
pub proof fn lemma_absorbs_keep_assets(w: WorldView, n: int)
    ensures
        keeps_assets(w, after_absorbs(w, n)),
    decreases n,
{
    if n > 0 {
        lemma_absorbs_keep_assets(w, n - 1);
        let before = after_absorbs(w, n - 1);
        assert(keeps_assets(before, after_absorb(before, n - 1)));
    }
}

/// The shared highlight material is set up once and never changed: a frame
/// leaves its handle and what the handle refers to as they are, as it
/// leaves every other stored material and mesh. A frame adds materials,
/// one for each absorption, and nothing else.
pub proof fn lemma_frame_keeps_assets(w: WorldView, frame: Frame)
    ensures
        same_assets(w, before_combine(w, frame)),
        keeps_assets(w, after_frame(w, frame)),
        after_frame(w, frame).materials.len() == w.materials.len() + removed_in(w, frame).len(),
{
    let landed = after_ground_contacts(w, frame.events);
    lemma_ground_contacts_keep_assets(w, frame.events);
    lemma_contacts_keep_assets(landed, frame.events);
    assert(same_assets(before_move(w, frame), before_jump(w, frame)));
    assert(same_assets(before_jump(w, frame), before_combine(w, frame)));
    let seen = before_combine(w, frame);
    if frame.input.confirm_just_pressed {
        lemma_absorbs_keep_assets(seen, seen.entities.len() as int);
        lemma_absorbs_add_materials(seen, seen.entities.len() as int);
    }
}

/// Each absorption adds one material.
pub proof fn lemma_absorbs_add_materials(w: WorldView, n: int)
    ensures
        after_absorbs(w, n).materials.len() == w.materials.len() + absorbed_by(w, n).len(),
    decreases n,
{
    if n > 0 {
        lemma_absorbs_add_materials(w, n - 1);
    }
}

/// Whether `entity` is a player that stands on the ground.
pub open spec fn is_grounded(w: WorldView, entity: Entity) -> bool {
    w.get(entity) matches Some(c) && c.player is Some && c.grounded == Some(Grounded(true))
}

/// Whether `entity` is a player that has a velocity.
pub open spec fn is_walker(w: WorldView, entity: Entity) -> bool {
    w.get(entity) matches Some(c) && c.player is Some && c.velocity is Some
}

/// Whether a step from `before` to `after` leaves every player in the
/// world, with a velocity if it had one, and on the ground if it stood
/// there.
pub open spec fn keeps_footing(before: WorldView, after: WorldView) -> bool {
    &&& forall|e: Entity| #[trigger] is_walker(before, e) ==> is_walker(after, e)
    &&& forall|e: Entity| #[trigger] is_grounded(before, e) ==> is_grounded(after, e)
}

/// The grounded-state tracker never takes a player off the ground.
pub proof fn lemma_ground_contacts_keep_footing(w: WorldView, events: Seq<CollisionEvent>)
    ensures
        keeps_footing(w, after_ground_contacts(w, events)),
    decreases events.len(),
{
    if events.len() > 0 {
        let before = after_ground_contacts(w, events.drop_last());
        lemma_ground_contacts_keep_footing(w, events.drop_last());
        match events.last() {
            CollisionEvent::Started(a, b) => {
                let mid = after_landing(before, a);
                assert(keeps_footing(before, mid));
                assert(keeps_footing(mid, after_landing(mid, b)));
            },
            CollisionEvent::Stopped(_, _) => {},
        }
    }
}

/// The highlight and candidate tracker never takes a player off the
/// ground.
pub proof fn lemma_contacts_keep_footing(w: WorldView, events: Seq<CollisionEvent>)
    ensures
        keeps_footing(w, after_contacts(w, events)),
    decreases events.len(),
{
    if events.len() > 0 {
        let before = after_contacts(w, events.drop_last());
        lemma_contacts_keep_footing(w, events.drop_last());
        assert(keeps_footing(before, after_contact(before, events.last())));
    }
}

/// The combine executor never takes a player off the ground, and never
/// removes a player.
pub proof fn lemma_absorbs_keep_footing(w: WorldView, n: int)
    ensures
        keeps_footing(w, after_absorbs(w, n)),
    decreases n,
{
    if n > 0 {
        lemma_absorbs_keep_footing(w, n - 1);
        let before = after_absorbs(w, n - 1);
        assert(keeps_footing(before, after_absorb(before, n - 1)));
    }
}

/// Up to the jump action, a frame leaves every player where it stands.
pub proof fn lemma_frame_keeps_footing_until_jump(w: WorldView, frame: Frame)
    ensures
        keeps_footing(w, before_jump(w, frame)),
{
    let landed = after_ground_contacts(w, frame.events);
    lemma_ground_contacts_keep_footing(w, frame.events);
    lemma_contacts_keep_footing(landed, frame.events);
    assert(keeps_footing(before_move(w, frame), before_jump(w, frame)));
}

/// A frame in which the jump key does not go down leaves every player
/// where it stands.
pub proof fn lemma_frame_without_jump_keeps_footing(w: WorldView, frame: Frame)
    requires
        !frame.input.jump_just_pressed,
    ensures
        keeps_footing(w, after_frame(w, frame)),
{
    lemma_frame_keeps_footing_until_jump(w, frame);
    assert(before_combine(w, frame).entities =~= before_jump(w, frame).entities);
    assert(before_combine(w, frame) == before_jump(w, frame));
    lemma_absorbs_keep_footing(
        before_combine(w, frame),
        before_combine(w, frame).entities.len() as int,
    );
}

/// Whether `entity` jumps in a frame that starts in world `w`.
pub open spec fn jumps_in(w: WorldView, frame: Frame, entity: Entity) -> bool {
    before_jump(w, frame).get(entity) matches Some(c) && jumps(c, frame.input.jump_just_pressed)
}

/// How often `entity` jumps over a run of frames that starts in world `w`.
pub open spec fn jump_count(w: WorldView, frames: Seq<Frame>, entity: Entity) -> nat
    decreases frames.len(),
{
    if frames.len() == 0 {
        0
    } else {
        jump_count(w, frames.drop_last(), entity) + if jumps_in(
            after_frames(w, frames.drop_last()),
            frames.last(),
            entity,
        ) {
            1nat
        } else {
            0nat
        }
    }
}

/// Jump edge-triggering. A grounded player that has a velocity jumps in the
/// frame in which the jump key goes down, and however many frames the key
/// is held after that, it does not jump again: over the whole run it jumps
/// exactly once.
pub proof fn lemma_held_jump_key_jumps_once(w: WorldView, frames: Seq<Frame>, player: Entity)
    requires
        is_walker(w, player),
        is_grounded(w, player),
        frames.len() >= 1,
        frames[0].input.jump_just_pressed,
        forall|k: int| 1 <= k < frames.len() ==> !(#[trigger] frames[k]).input.jump_just_pressed,
    ensures
        jumps_in(w, frames[0], player),
        jump_count(w, frames, player) == 1,
    decreases frames.len(),
{
    lemma_frame_keeps_footing_until_jump(w, frames[0]);
    assert(is_walker(before_jump(w, frames[0]), player));
    assert(is_grounded(before_jump(w, frames[0]), player));
    if frames.len() == 1 {
        assert(frames.drop_last().len() == 0);
        assert(jump_count(w, frames.drop_last(), player) == 0);
        assert(after_frames(w, frames.drop_last()) == w);
        assert(frames.last() == frames[0]);
    } else {
        let earlier = frames.drop_last();
        assert(earlier[0] == frames[0]);
        assert forall|k: int| 1 <= k < earlier.len() implies !(#[trigger] earlier[k]).input.jump_just_pressed by {
            assert(earlier[k] == frames[k]);
        }
        lemma_held_jump_key_jumps_once(w, earlier, player);
        assert(!frames[frames.len() - 1].input.jump_just_pressed);
    }
}

/// A foot sensor that starts to touch something grounds its owner: after
/// the grounded-state tracker has gone through events among which is the
/// start of a contact of a sensor of `owner`, `owner` is marked as grounded.
pub proof fn lemma_ground_contact_grounds(
    w: WorldView,
    events: Seq<CollisionEvent>,
    k: int,
    owner: Entity,
)
    requires
        0 <= k < events.len(),
        events[k] matches CollisionEvent::Started(a, b) && (sensor_owner(w, a) == Some(owner)
            || sensor_owner(w, b) == Some(owner)),
    ensures
        after_ground_contacts(w, events).get(owner) matches Some(c) && c.grounded == Some(
            Grounded(true),
        ),
        w.is_player(owner) ==> is_grounded(after_ground_contacts(w, events), owner),
    decreases events.len(),
{
    let before = after_ground_contacts(w, events.drop_last());
    lemma_ground_contacts_keep_sensors(w, events.drop_last());
    if k < events.len() - 1 {
        assert(events.drop_last()[k] == events[k]);
        lemma_ground_contact_grounds(w, events.drop_last(), k, owner);
    }
    match events.last() {
        CollisionEvent::Started(a, b) => {
            let mid = after_landing(before, a);
            assert(same_sensors(before, mid));
        },
        CollisionEvent::Stopped(_, _) => {},
    }
}

/// Whether two worlds have the same foot sensors with the same owners, and
/// every entity that is grounded in the first is grounded in the second.
pub open spec fn same_sensors(a: WorldView, b: WorldView) -> bool {
    &&& forall|s: Entity| #[trigger] sensor_owner(a, s) == sensor_owner(b, s)
    &&& forall|e: Entity| #[trigger] a.is_player(e) == b.is_player(e)
    &&& forall|e: Entity|
        (#[trigger] a.get(e)) is Some && a.get(e)->0.grounded == Some(Grounded(true)) ==> b.get(
            e,
        ) is Some && b.get(e)->0.grounded == Some(Grounded(true))
}

/// The grounded-state tracker leaves the sensors and their owners as they
/// are, and takes nothing off the ground.
pub proof fn lemma_ground_contacts_keep_sensors(w: WorldView, events: Seq<CollisionEvent>)
    ensures
        same_sensors(w, after_ground_contacts(w, events)),
    decreases events.len(),
{
    if events.len() > 0 {
        let before = after_ground_contacts(w, events.drop_last());
        lemma_ground_contacts_keep_sensors(w, events.drop_last());
        match events.last() {
            CollisionEvent::Started(a, b) => {
                let mid = after_landing(before, a);
                assert(same_sensors(before, mid));
                assert(same_sensors(mid, after_landing(mid, b)));
            },
            CollisionEvent::Stopped(_, _) => {},
        }
    }
}

/// Grounded monotonicity. A player that stands on the ground keeps
/// standing there over any run of frames in which the jump key never goes
/// down, whatever contacts start or end meanwhile: only a jump takes a
/// player off the ground.
pub proof fn lemma_grounded_until_jump(w: WorldView, frames: Seq<Frame>, player: Entity)
    requires
        is_grounded(w, player),
        forall|k: int| 0 <= k < frames.len() ==> !(#[trigger] frames[k]).input.jump_just_pressed,
    ensures
        is_grounded(after_frames(w, frames), player),
    decreases frames.len(),
{
    if frames.len() > 0 {
        let earlier = frames.drop_last();
        assert forall|k: int| 0 <= k < earlier.len() implies !(#[trigger] earlier[k]).input.jump_just_pressed by {
            assert(earlier[k] == frames[k]);
        }
        lemma_grounded_until_jump(w, earlier, player);
        assert(!frames[frames.len() - 1].input.jump_just_pressed);
        lemma_frame_without_jump_keeps_footing(after_frames(w, earlier), frames.last());
    }
}

/// A player whose foot sensor starts to touch something in a frame is on
/// the ground at the end of that frame and of every later one, as long as
/// the jump key does not go down.
pub proof fn lemma_landed_player_stays_grounded(
    w: WorldView,
    frames: Seq<Frame>,
    k: int,
    player: Entity,
)
    requires
        w.is_player(player),
        frames.len() >= 1,
        forall|j: int| 0 <= j < frames.len() ==> !(#[trigger] frames[j]).input.jump_just_pressed,
        0 <= k < frames[0].events.len(),
        frames[0].events[k] matches CollisionEvent::Started(a, b) && (sensor_owner(w, a) == Some(
            player,
        ) || sensor_owner(w, b) == Some(player)),
    ensures
        is_grounded(after_frames(w, frames), player),
    decreases frames.len(),
{
    let first = frames[0];
    if frames.len() == 1 {
        assert(frames.drop_last().len() == 0);
        assert(after_frames(w, frames.drop_last()) == w);
        assert(frames.last() == first);
        lemma_ground_contact_grounds(w, first.events, k, player);
        let landed = after_ground_contacts(w, first.events);
        lemma_contacts_keep_footing(landed, first.events);
        assert(keeps_footing(before_move(w, first), before_jump(w, first)));
        assert(before_combine(w, first).entities =~= before_jump(w, first).entities);
        assert(before_combine(w, first) == before_jump(w, first));
        lemma_absorbs_keep_footing(
            before_combine(w, first),
            before_combine(w, first).entities.len() as int,
        );
    } else {
        let earlier = frames.drop_last();
        assert(earlier[0] == first);
        assert forall|j: int| 0 <= j < earlier.len() implies !(#[trigger] earlier[j]).input.jump_just_pressed by {
            assert(earlier[j] == frames[j]);
        }
        lemma_landed_player_stays_grounded(w, earlier, k, player);
        assert(!frames[frames.len() - 1].input.jump_just_pressed);
        lemma_frame_without_jump_keeps_footing(after_frames(w, earlier), frames.last());
    }
}

/// The entities that are absorbed over a run of frames that starts in
/// world `w`, in the order in which they go.
pub open spec fn removed_over(w: WorldView, frames: Seq<Frame>) -> Seq<Entity>
    decreases frames.len(),
{
    if frames.len() == 0 {
        Seq::empty()
    } else {
        removed_over(w, frames.drop_last()) + removed_in(
            after_frames(w, frames.drop_last()),
            frames.last(),
        )
    }
}

/// Where the player in slot `p` absorbs `target` and no player in another
/// slot absorbs anything, a confirm does exactly this one absorption.
pub proof fn lemma_sole_absorption(w: WorldView, p: int, target: Entity, n: int)
    requires
        absorption(w, p) == Some(target),
        forall|q: int| q != p ==> (#[trigger] absorption(w, q)) is None,
    ensures
        after_absorbs(w, n) == if n <= p {
            w
        } else {
            after_absorb(w, p)
        },
        absorbed_by(w, n) == if n <= p {
            Seq::<Entity>::empty()
        } else {
            seq![target]
        },
    decreases n,
{
    if n > 0 {
        lemma_sole_absorption(w, p, target, n - 1);
        if n - 1 < p {
            assert(absorption(w, n - 1) is None);
        } else if n - 1 == p {
            assert(Seq::<Entity>::empty().push(target) =~= seq![target]);
        } else {
            let after = after_absorb(w, p);
            assert(absorption(w, n - 1) is None);
            assert(absorption(after, n - 1) is None);
        }
    }
}

/// Combine idempotence under a held confirm key. In the frame in which the
/// confirm key goes down, a player whose candidate can be absorbed absorbs
/// it; where no other player absorbs anything in that frame, this is the
/// only absorption of the frame. However many frames the key is held after
/// that, nothing more is absorbed: over the whole run exactly the one
/// candidate goes, and each later frame ends as the combine executor found
/// it.
pub proof fn lemma_held_confirm_key_combines_once(
    w: WorldView,
    frames: Seq<Frame>,
    p: int,
    target: Entity,
)
    requires
        frames.len() >= 1,
        frames[0].input.confirm_just_pressed,
        forall|k: int|
            1 <= k < frames.len() ==> !(#[trigger] frames[k]).input.confirm_just_pressed,
        absorption(before_combine(w, frames[0]), p) == Some(target),
        forall|q: int|
            q != p ==> (#[trigger] absorption(before_combine(w, frames[0]), q)) is None,
    ensures
        after_frame(w, frames[0]) == after_absorb(before_combine(w, frames[0]), p),
        removed_in(w, frames[0]) == seq![target],
        removed_over(w, frames) == seq![target],
        forall|k: int|
            1 <= k < frames.len() ==> after_frame(
                after_frames(w, frames.take(k)),
                #[trigger] frames[k],
            ) == before_combine(after_frames(w, frames.take(k)), frames[k]),
    decreases frames.len(),
{
    let seen = before_combine(w, frames[0]);
    lemma_sole_absorption(seen, p, target, seen.entities.len() as int);
    if frames.len() == 1 {
        assert(frames.drop_last().len() == 0);
        assert(after_frames(w, frames.drop_last()) == w);
        assert(frames.last() == frames[0]);
        assert(removed_over(w, frames.drop_last()) == Seq::<Entity>::empty());
        assert(Seq::<Entity>::empty() + seq![target] =~= seq![target]);
    } else {
        let earlier = frames.drop_last();
        assert(earlier[0] == frames[0]);
        assert forall|k: int| 1 <= k < earlier.len() implies !(#[trigger] earlier[k]).input.confirm_just_pressed by {
            assert(earlier[k] == frames[k]);
        }
        lemma_held_confirm_key_combines_once(w, earlier, p, target);
        assert(!frames[frames.len() - 1].input.confirm_just_pressed);
        assert(removed_in(after_frames(w, earlier), frames.last()) == Seq::<Entity>::empty());
        assert(seq![target] + Seq::<Entity>::empty() =~= seq![target]);
    }
}

} // verus!
