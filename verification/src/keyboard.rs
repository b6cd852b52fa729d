use vstd::prelude::*;
use bevy::input::keyboard::KeyCode;
use bevy::input::Input;
use crate::events::KeyboardInput;

verus! {

/// `bevy::input::Input`, the record of which buttons are down; nothing of
/// its inside is visible here.
#[verifier::external_type_specification]
#[verifier::external_body]
#[verifier::reject_recursive_types(T)]
pub struct ExInput<T: Eq + core::hash::Hash>(Input<T>);

/// `bevy::input::keyboard::KeyCode`, the keys of a keyboard.
#[verifier::external_type_specification]
pub struct ExKeyCode(KeyCode);

/// The keys that `input` records as held down.
pub uninterp spec fn held_keys(input: Input<KeyCode>) -> Set<KeyCode>;

/// The keys that `input` records as having gone down since it was last
/// cleared, which happens once per frame.
pub uninterp spec fn fresh_keys(input: Input<KeyCode>) -> Set<KeyCode>;

/// `Input::pressed`: whether `key` is among the keys held down.
#[verifier::external_body]
fn pressed(input: &Input<KeyCode>, key: KeyCode) -> (down: bool)
    ensures
        down == held_keys(*input).contains(key),
{
    input.pressed(key)
}

/// `Input::just_pressed`: whether `key` is among the keys that have just
/// gone down.
#[verifier::external_body]
fn just_pressed(input: &Input<KeyCode>, key: KeyCode) -> (down: bool)
    ensures
        down == fresh_keys(*input).contains(key),
{
    input.just_pressed(key)
}

/// What the simulation reads off a keyboard: the arrow keys walk, the space
/// bar jumps and `A` confirms. Walking goes by keys that are held; jumping
/// and confirming go by keys that have just gone down.
pub open spec fn key_bindings(input: Input<KeyCode>) -> KeyboardInput {
    KeyboardInput {
        up: held_keys(input).contains(KeyCode::Up),
        down: held_keys(input).contains(KeyCode::Down),
        left: held_keys(input).contains(KeyCode::Left),
        right: held_keys(input).contains(KeyCode::Right),
        jump_just_pressed: fresh_keys(input).contains(KeyCode::Space),
        confirm_just_pressed: fresh_keys(input).contains(KeyCode::A),
    }
}

impl KeyboardInput {
    /// Reads the keys that the simulation listens to.
    pub fn poll(input: &Input<KeyCode>) -> (state: KeyboardInput)
        ensures
            state == key_bindings(*input),
    {
        KeyboardInput {
            up: pressed(input, KeyCode::Up),
            down: pressed(input, KeyCode::Down),
            left: pressed(input, KeyCode::Left),
            right: pressed(input, KeyCode::Right),
            jump_just_pressed: just_pressed(input, KeyCode::Space),
            confirm_just_pressed: just_pressed(input, KeyCode::A),
        }
    }
}

} // verus!
