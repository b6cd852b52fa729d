use vstd::prelude::*;

verus! {

/// An opaque colour with eight bits per channel.
#[derive(Clone, Copy, Debug, PartialEq, Eq, Structural)]
pub struct Color {
    pub r: u8,
    pub g: u8,
    pub b: u8,
}

/// What a material asset holds.
#[derive(Clone, Copy, Debug, PartialEq, Eq, Structural)]
pub struct StandardMaterial {
    pub base_color: Color,
}

/// What a mesh asset holds; sizes are fixed-point lengths.
#[derive(Clone, Copy, Debug, PartialEq, Eq, Structural)]
pub enum Mesh {
    Cube { size: i32 },
    Plane { size: i32 },
}

/// Reference to a material in the world's material store.
#[derive(Clone, Copy, Debug, PartialEq, Eq, Structural, Hash)]
pub struct MaterialHandle(pub u64);

/// Reference to a mesh in the world's mesh store.
#[derive(Clone, Copy, Debug, PartialEq, Eq, Structural, Hash)]
pub struct MeshHandle(pub u64);

/// The colour of the shared highlight material.
pub open spec fn highlight_color() -> Color {
    Color { r: 255, g: 255, b: 0 }
}

/// The colour a player takes on after absorbing an object whose own colour
/// is `source`: red and green are kept, blue is saturated.
pub open spec fn combined_color(source: Color) -> Color {
    Color { r: source.r, g: source.g, b: 255 }
}

impl Color {
    pub fn new(r: u8, g: u8, b: u8) -> (c: Color)
        ensures
            c == (Color { r, g, b }),
    {
        Color { r, g, b }
    }

    /// Colour of the highlight material.
    pub fn yellow() -> (c: Color)
        ensures
            c == highlight_color(),
    {
        Color { r: 255, g: 255, b: 0 }
    }

    /// Colour of a freshly spawned player.
    pub fn blue() -> (c: Color)
        ensures
            c == (Color { r: 0, g: 0, b: 255 }),
    {
        Color { r: 0, g: 0, b: 255 }
    }

    /// Colour of a freshly spawned box.
    pub fn pink() -> (c: Color)
        ensures
            c == (Color { r: 255, g: 20, b: 147 }),
    {
        Color { r: 255, g: 20, b: 147 }
    }

    /// The colour derived from `self` for a player that absorbed an object
    /// of this colour.
    pub fn combined(self) -> (c: Color)
        ensures
            c == combined_color(self),
    {
        Color { r: self.r, g: self.g, b: 255 }
    }
}

} // verus!
