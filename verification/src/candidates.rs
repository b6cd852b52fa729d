use vstd::prelude::*;
use crate::combine::{
    absorption, after_absorb, after_absorbs, after_combine, after_contact, after_contacts,
    begin_pair, can_absorb, can_be_absorbed, end_pair,
};
use crate::events::{CollisionEvent, KeyboardInput};
use crate::player::{
    after_ground_contacts, after_jump, after_landing, after_move, jumped, moved,
};
use crate::schedule::{
    after_frame, after_frames, before_combine, before_jump, before_move, Frame,
};
use crate::world::{Components, Entity, WorldView};

verus! {

/// The candidate that the player in slot `p` holds, if there is a player in
/// that slot and it holds one.
pub open spec fn candidate_of(w: WorldView, p: int) -> Option<Entity> {
    if 0 <= p < w.entities.len() && w.entities[p] is Some && w.entities[p]->0.player is Some {
        w.entities[p]->0.player->0.entity_to_combine
    } else {
        None
    }
}

/// Candidate validity: whatever a player holds as its candidate exists and
/// is an interactable.
pub open spec fn candidates_valid(w: WorldView) -> bool {
    forall|p: int| #[trigger]
        candidate_of(w, p) is Some ==> w.alive(candidate_of(w, p)->0) && w.get(
            candidate_of(w, p)->0,
        )->0.combinable is Some
}

/// Whether two different players hold the same candidate, that candidate
/// can be absorbed, and one of the two is able to absorb it. A confirm in
/// such a world leaves the other player with a candidate that is gone.
pub open spec fn contested(w: WorldView) -> bool {
    exists|p: int, q: int| #[trigger] rivals(w, p, q)
}

/// Whether the players in slots `p` and `q` compete for one candidate.
pub open spec fn rivals(w: WorldView, p: int, q: int) -> bool {
    &&& p != q
    &&& candidate_of(w, p) is Some
    &&& candidate_of(w, p) == candidate_of(w, q)
    &&& can_be_absorbed(w, candidate_of(w, p)->0)
    &&& (can_absorb(w.entities[p]->0) || can_absorb(w.entities[q]->0))
}

/// A change of components that leaves alone what decides whether an entity
/// fits into a world and what its candidate is.
pub open spec fn keeps_roles(change: spec_fn(Components) -> Components) -> bool {
    forall|c: Components|
        {
            &&& (#[trigger] change(c)).player == c.player
            &&& change(c).combinable == c.combinable
            &&& change(c).material == c.material
            &&& change(c).transform == c.transform
            &&& change(c).mesh == c.mesh
            &&& change(c).collider == c.collider
        }
}

/// Such a change, applied to every entity, keeps the world well formed and
/// the candidates valid.
pub proof fn lemma_map_keeps_candidates(w: WorldView, change: spec_fn(Components) -> Components)
    requires
        w.wf(),
        keeps_roles(change),
    ensures
        w.map_entities(change).wf(),
        candidates_valid(w) ==> candidates_valid(w.map_entities(change)),
{
    let after = w.map_entities(change);
    assert forall|j: int| 0 <= j < after.entities.len() && after.entities[j] is Some implies after.admits(
        (#[trigger] after.entities[j])->0,
    ) by {
        assert(w.admits(w.entities[j]->0));
    }
    assert forall|p: int| candidate_of(after, p) == candidate_of(w, p) by {}
    if candidates_valid(w) {
        assert forall|p: int| #[trigger] candidate_of(after, p) is Some implies after.alive(
            candidate_of(after, p)->0,
        ) && after.get(candidate_of(after, p)->0)->0.combinable is Some by {
            assert(candidate_of(w, p) is Some);
        }
    }
}

/// The movement controller keeps the world well formed and the candidates
/// valid.
pub proof fn lemma_move_keeps_candidates(w: WorldView, input: KeyboardInput)
    requires
        w.wf(),
    ensures
        after_move(w, input).wf(),
        candidates_valid(w) ==> candidates_valid(after_move(w, input)),
{
    lemma_map_keeps_candidates(w, |c: Components| moved(c, input));
}

/// The jump action keeps the world well formed and the candidates valid.
pub proof fn lemma_jump_keeps_candidates(w: WorldView, jump_just_pressed: bool)
    requires
        w.wf(),
    ensures
        after_jump(w, jump_just_pressed).wf(),
        candidates_valid(w) ==> candidates_valid(after_jump(w, jump_just_pressed)),
{
    lemma_map_keeps_candidates(w, |c: Components| jumped(c, jump_just_pressed));
}

/// A landing keeps the world well formed and the candidates valid.
pub proof fn lemma_landing_keeps_candidates(w: WorldView, sensor: Entity)
    requires
        w.wf(),
    ensures
        after_landing(w, sensor).wf(),
        candidates_valid(w) ==> candidates_valid(after_landing(w, sensor)),
{
    let after = after_landing(w, sensor);
    assert forall|j: int| 0 <= j < after.entities.len() && after.entities[j] is Some implies after.admits(
        (#[trigger] after.entities[j])->0,
    ) by {
        assert(w.admits(w.entities[j]->0));
    }
    assert forall|p: int| candidate_of(after, p) == candidate_of(w, p) by {}
    if candidates_valid(w) {
        assert forall|p: int| #[trigger] candidate_of(after, p) is Some implies after.alive(
            candidate_of(after, p)->0,
        ) && after.get(candidate_of(after, p)->0)->0.combinable is Some by {
            assert(candidate_of(w, p) is Some);
        }
    }
}

/// The grounded-state tracker keeps the world well formed and the
/// candidates valid.
pub proof fn lemma_ground_contacts_keep_candidates(w: WorldView, events: Seq<CollisionEvent>)
    requires
        w.wf(),
    ensures
        after_ground_contacts(w, events).wf(),
        candidates_valid(w) ==> candidates_valid(after_ground_contacts(w, events)),
    decreases events.len(),
{
    if events.len() > 0 {
        let before = after_ground_contacts(w, events.drop_last());
        lemma_ground_contacts_keep_candidates(w, events.drop_last());
        match events.last() {
            CollisionEvent::Started(a, b) => {
                lemma_landing_keeps_candidates(before, a);
                lemma_landing_keeps_candidates(after_landing(before, a), b);
            },
            CollisionEvent::Stopped(_, _) => {},
        }
    }
}

/// One event of the highlight and candidate tracker keeps the candidates
/// valid: a new candidate is an existing interactable, and an end only
/// takes a candidate away.
pub proof fn lemma_contact_keeps_candidates(w: WorldView, event: CollisionEvent)
    requires
        w.wf(),
        candidates_valid(w),
    ensures
        candidates_valid(after_contact(w, event)),
{
    let after = after_contact(w, event);
    assert forall|p: int| #[trigger] candidate_of(after, p) is Some implies after.alive(
        candidate_of(after, p)->0,
    ) && after.get(candidate_of(after, p)->0)->0.combinable is Some by {
        match event {
            CollisionEvent::Started(a, b) => {
                if let Some((player, target)) = begin_pair(w, a, b) {
                    assert(w.admits(w.entities[player.0 as int]->0));
                    assert(w.admits(w.entities[target.0 as int]->0));
                    if p != player.0 {
                        assert(candidate_of(w, p) == candidate_of(after, p));
                    }
                } else {
                    assert(candidate_of(w, p) is Some);
                }
            },
            CollisionEvent::Stopped(a, b) => {
                if let Some((player, target)) = end_pair(w, a, b) {
                    assert(w.admits(w.entities[target.0 as int]->0));
                    if let Some(q) = player {
                        assert(w.admits(w.entities[q.0 as int]->0));
                    }
                    assert(candidate_of(w, p) == candidate_of(after, p));
                } else {
                    assert(candidate_of(w, p) is Some);
                }
            },
        }
    }
}

/// The highlight and candidate tracker keeps the world well formed.
pub proof fn lemma_contacts_keep_wf(w: WorldView, events: Seq<CollisionEvent>)
    requires
        w.wf(),
    ensures
        after_contacts(w, events).wf(),
    decreases events.len(),
{
    if events.len() > 0 {
        lemma_contacts_keep_wf(w, events.drop_last());
        crate::combine::lemma_contact_keeps_wf(
            after_contacts(w, events.drop_last()),
            events.last(),
        );
    }
}

/// The highlight and candidate tracker keeps the world well formed and the
/// candidates valid.
pub proof fn lemma_contacts_keep_candidates(w: WorldView, events: Seq<CollisionEvent>)
    requires
        w.wf(),
        candidates_valid(w),
    ensures
        after_contacts(w, events).wf(),
        candidates_valid(after_contacts(w, events)),
    decreases events.len(),
{
    if events.len() > 0 {
        let before = after_contacts(w, events.drop_last());
        lemma_contacts_keep_candidates(w, events.drop_last());
        lemma_contact_keeps_candidates(before, events.last());
        crate::combine::lemma_contact_keeps_wf(before, events.last());
    }
}

/// The turn of one player at a confirm keeps the world well formed, and in
/// a world without contested candidates it keeps the candidates valid and
/// uncontested.
pub proof fn lemma_absorb_keeps_candidates(w: WorldView, p: int)
    requires
        w.wf(),
    ensures
        after_absorb(w, p).wf(),
        after_absorb(w, p).entities.len() == w.entities.len(),
        candidates_valid(w) && !contested(w) ==> candidates_valid(after_absorb(w, p))
            && !contested(after_absorb(w, p)),
{
    let after = after_absorb(w, p);
    if let Some(t) = absorption(w, p) {
        let player = w.entities[p]->0;
        let target = w.entities[t.0 as int]->0;
        assert(w.admits(player));
        assert(w.admits(target));
        assert(p != t.0);
        assert forall|j: int| 0 <= j < after.entities.len() && after.entities[j] is Some implies after.admits(
            (#[trigger] after.entities[j])->0,
        ) by {
            assert(w.admits(w.entities[j]->0));
        }
        if candidates_valid(w) && !contested(w) {
            assert forall|q: int| #[trigger] candidate_of(after, q) is Some implies after.alive(
                candidate_of(after, q)->0,
            ) && after.get(candidate_of(after, q)->0)->0.combinable is Some by {
                let u = candidate_of(after, q)->0;
                assert(q != p && q != t.0);
                assert(candidate_of(w, q) == Some(u));
                if u == t {
                    assert(rivals(w, p, q));
                }
                assert(w.admits(w.entities[u.0 as int]->0));
            }
            if contested(after) {
                let (a, b) = choose|a: int, b: int| #[trigger] rivals(after, a, b);
                assert(a != p && b != p && a != t.0 && b != t.0);
                assert(candidate_of(w, a) == candidate_of(after, a));
                assert(candidate_of(w, b) == candidate_of(after, b));
                assert(rivals(w, a, b));
            }
        }
    }
}

/// The turns of the players in the first `n` slots keep the world well
/// formed, and in a world without contested candidates they keep the
/// candidates valid.
pub proof fn lemma_absorbs_keep_candidates(w: WorldView, n: int)
    requires
        w.wf(),
    ensures
        after_absorbs(w, n).wf(),
        after_absorbs(w, n).entities.len() == w.entities.len(),
        candidates_valid(w) && !contested(w) ==> candidates_valid(after_absorbs(w, n))
            && !contested(after_absorbs(w, n)),
    decreases n,
{
    if n > 0 {
        lemma_absorbs_keep_candidates(w, n - 1);
        lemma_absorb_keeps_candidates(after_absorbs(w, n - 1), n - 1);
    }
}

/// The combine executor keeps the world well formed, and it keeps the
/// candidates valid unless confirm is pressed while a candidate is
/// contested.
pub proof fn lemma_combine_keeps_candidates(w: WorldView, confirm_just_pressed: bool)
    requires
        w.wf(),
        candidates_valid(w),
        confirm_just_pressed ==> !contested(w),
    ensures
        after_combine(w, confirm_just_pressed).wf(),
        candidates_valid(after_combine(w, confirm_just_pressed)),
{
    if confirm_just_pressed {
        lemma_absorbs_keep_candidates(w, w.entities.len() as int);
    }
}

/// What holds while a confirm goes through the players of a world `w` in
/// which the players in slots `p` and `q` compete for `target`: as long as
/// `target` exists, it and the two players are as they were; once it is
/// gone, one of the two still holds it as its candidate.
pub open spec fn contest_goes_on(w: WorldView, now: WorldView, p: int, q: int, target: Entity) -> bool {
    &&& now.entities.len() == w.entities.len()
    &&& now.wf()
    &&& if now.alive(target) {
        &&& now.get(target) == w.get(target)
        &&& now.entities[p] == w.entities[p]
        &&& now.entities[q] == w.entities[q]
    } else {
        candidate_of(now, p) == Some(target) || candidate_of(now, q) == Some(target)
    }
}

/// The turn of the player in slot `n` keeps a contest going, and if that
/// player is one of the two that is able to absorb, the target is gone
/// after its turn.
proof fn lemma_absorb_in_contest(w: WorldView, now: WorldView, p: int, q: int, n: int)
    requires
        w.wf(),
        rivals(w, p, q),
        contest_goes_on(w, now, p, q, candidate_of(w, p)->0),
    ensures
        contest_goes_on(w, after_absorb(now, n), p, q, candidate_of(w, p)->0),
        (n == p || n == q) && can_absorb(w.entities[n]->0) ==> !after_absorb(now, n).alive(
            candidate_of(w, p)->0,
        ),
{
    let target = candidate_of(w, p)->0;
    lemma_absorb_keeps_candidates(now, n);
    assert(w.admits(w.entities[target.0 as int]->0));
    assert(w.admits(w.entities[p]->0));
    assert(w.admits(w.entities[q]->0));
    if let Some(u) = absorption(now, n) {
        assert(now.admits(now.entities[n]->0));
        assert(now.admits(now.entities[u.0 as int]->0));
    }
}

/// The turns of the players in the first `n` slots keep a contest going,
/// and the target is gone once one of the two that is able to absorb has
/// had its turn.
proof fn lemma_absorbs_in_contest(w: WorldView, p: int, q: int, n: int)
    requires
        w.wf(),
        rivals(w, p, q),
    ensures
        contest_goes_on(w, after_absorbs(w, n), p, q, candidate_of(w, p)->0),
        (p < n && can_absorb(w.entities[p]->0)) || (q < n && can_absorb(w.entities[q]->0))
            ==> !after_absorbs(w, n).alive(candidate_of(w, p)->0),
    decreases n,
{
    if n > 0 {
        lemma_absorbs_in_contest(w, p, q, n - 1);
        lemma_absorb_in_contest(w, after_absorbs(w, n - 1), p, q, n - 1);
    }
}

/// A confirm in a world with a contested candidate breaks candidate
/// validity: the contested candidate is absorbed, and one of the players
/// that held it still refers to it afterwards.
pub proof fn lemma_contested_confirm_leaves_dangling(w: WorldView)
    requires
        w.wf(),
        contested(w),
    ensures
        !candidates_valid(after_combine(w, true)),
{
    let (p, q) = choose|p: int, q: int| #[trigger] rivals(w, p, q);
    let after = after_combine(w, true);
    lemma_absorbs_in_contest(w, p, q, w.entities.len() as int);
    assert(candidate_of(after, p) is Some || candidate_of(after, q) is Some);
}

/// Every frame keeps the world well formed: at the end of a frame, as at
/// its start, each interactable shows the material that its highlight flag
/// calls for.
pub proof fn lemma_frame_keeps_wf(w: WorldView, frame: Frame)
    requires
        w.wf(),
    ensures
        before_move(w, frame).wf(),
        before_jump(w, frame).wf(),
        before_combine(w, frame).wf(),
        after_frame(w, frame).wf(),
{
    lemma_ground_contacts_keep_candidates(w, frame.events);
    lemma_contacts_keep_wf(after_ground_contacts(w, frame.events), frame.events);
    lemma_move_keeps_candidates(before_move(w, frame), frame.input);
    lemma_jump_keeps_candidates(before_jump(w, frame), frame.input.jump_just_pressed);
    if frame.input.confirm_just_pressed {
        lemma_absorbs_keep_candidates(
            before_combine(w, frame),
            before_combine(w, frame).entities.len() as int,
        );
    }
}

/// Candidate validity. If every candidate is an existing interactable when
/// a frame starts, the same holds when it ends: the trackers only hand out
/// existing interactables and take candidates away, and a confirm removes
/// an interactable together with the reference of the player that absorbs
/// it. Left out is a confirm in a frame in which two players hold the same
/// absorbable candidate; there the player that comes second keeps its
/// reference to an entity that is gone.
pub proof fn lemma_frame_keeps_candidates(w: WorldView, frame: Frame)
    requires
        w.wf(),
        candidates_valid(w),
        frame.input.confirm_just_pressed ==> !contested(before_combine(w, frame)),
    ensures
        after_frame(w, frame).wf(),
        candidates_valid(after_frame(w, frame)),
{
    lemma_frame_keeps_wf(w, frame);
    lemma_ground_contacts_keep_candidates(w, frame.events);
    lemma_contacts_keep_candidates(after_ground_contacts(w, frame.events), frame.events);
    lemma_move_keeps_candidates(before_move(w, frame), frame.input);
    lemma_jump_keeps_candidates(before_jump(w, frame), frame.input.jump_just_pressed);
    lemma_combine_keeps_candidates(before_combine(w, frame), frame.input.confirm_just_pressed);
}

/// Candidate validity over a run of frames: it holds after every frame if
/// it holds at the start and no confirm comes while a candidate is
/// contested.
pub proof fn lemma_frames_keep_candidates(w: WorldView, frames: Seq<Frame>)
    requires
        w.wf(),
        candidates_valid(w),
        forall|k: int|
            0 <= k < frames.len() && (#[trigger] frames[k]).input.confirm_just_pressed
                ==> !contested(before_combine(after_frames(w, frames.take(k)), frames[k])),
    ensures
        after_frames(w, frames).wf(),
        candidates_valid(after_frames(w, frames)),
    decreases frames.len(),
{
    if frames.len() > 0 {
        let earlier = frames.drop_last();
        assert forall|k: int|
            0 <= k < earlier.len() && (#[trigger] earlier[k]).input.confirm_just_pressed implies !contested(
            before_combine(after_frames(w, earlier.take(k)), earlier[k]),
        ) by {
            assert(earlier[k] == frames[k]);
            assert(earlier.take(k) =~= frames.take(k));
        }
        lemma_frames_keep_candidates(w, earlier);
        let last = frames.len() - 1;
        assert(frames.take(last) =~= earlier);
        assert(frames[last] == frames.last());
        lemma_frame_keeps_candidates(after_frames(w, earlier), frames.last());
    }
}

} // verus!
