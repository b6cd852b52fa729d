use vstd::prelude::*;
use crate::world::Entity;

verus! {

/// A change of contact between two entities, as the physics step reports it.
/// The pair is unordered: either entity may come first.
#[derive(Clone, Copy, Debug, PartialEq, Eq, Structural)]
pub enum CollisionEvent {
    /// The two entities have started to touch.
    Started(Entity, Entity),
    /// The two entities have stopped touching.
    Stopped(Entity, Entity),
}

/// The state of the keys that the simulation reads, polled once per frame.
#[derive(Clone, Copy, Debug, PartialEq, Eq, Structural)]
pub struct KeyboardInput {
    /// The key for moving away from the camera is held down.
    pub up: bool,
    /// The key for moving towards the camera is held down.
    pub down: bool,
    /// The key for moving left is held down.
    pub left: bool,
    /// The key for moving right is held down.
    pub right: bool,
    /// The jump key went down in this frame.
    pub jump_just_pressed: bool,
    /// The confirm key went down in this frame.
    pub confirm_just_pressed: bool,
}

impl KeyboardInput {
    /// No key is down.
    pub open spec fn spec_idle() -> KeyboardInput {
        KeyboardInput {
            up: false,
            down: false,
            left: false,
            right: false,
            jump_just_pressed: false,
            confirm_just_pressed: false,
        }
    }

    /// No key is down.
    #[verifier::when_used_as_spec(spec_idle)]
    pub fn idle() -> (input: KeyboardInput)
        ensures
            input == KeyboardInput::spec_idle(),
    {
        KeyboardInput {
            up: false,
            down: false,
            left: false,
            right: false,
            jump_just_pressed: false,
            confirm_just_pressed: false,
        }
    }
}

} // verus!
