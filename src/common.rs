use vstd::prelude::*;

verus! {

/// Whose move it is at the handoff slot: the engine may publish a canvas
/// (`WantData`), or the display may pick up the one published (`WantDisplay`).
#[derive(Clone, Copy, Debug, PartialEq, Eq, Structural)]
pub enum Turn {
    WantData,
    WantDisplay,
}

/// The pointer as the input collaborator last reported it, in canvas pixels.
#[derive(Clone, Copy, Debug, PartialEq, Eq, Structural)]
pub struct Cursor {
    pub enabled: bool,
    pub x: u32,
    pub y: u32,
    pub pressed: bool,
}

impl Default for Cursor {
    /// A disabled, released pointer at the origin.
    fn default() -> (r: Cursor)
        ensures
            r == (Cursor { enabled: false, x: 0, y: 0, pressed: false }),
    {
        Cursor { enabled: false, x: 0, y: 0, pressed: false }
    }
}

/// One canvas pixel: red, green, blue and alpha channels.
#[derive(Clone, Copy, Debug, PartialEq, Eq, Structural)]
pub struct Color {
    pub r: u8,
    pub g: u8,
    pub b: u8,
    pub a: u8,
}

impl Color {
    pub fn white() -> (c: Color)
        ensures
            c == (Color { r: 255, g: 255, b: 255, a: 255 }),
    {
        Color { r: 255, g: 255, b: 255, a: 255 }
    }

    pub fn black() -> (c: Color)
        ensures
            c == (Color { r: 0, g: 0, b: 0, a: 255 }),
    {
        Color { r: 0, g: 0, b: 0, a: 255 }
    }

    pub fn new(r: u8, g: u8, b: u8, a: u8) -> (c: Color)
        ensures
            c == (Color { r, g, b, a }),
    {
        Color { r, g, b, a }
    }
}

} // verus!
