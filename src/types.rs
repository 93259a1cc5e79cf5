use vstd::prelude::*;

verus! {

/// An axis-aligned rectangle: top-left corner and size.
#[derive(PartialEq, Eq, Clone, Copy, Hash, Debug, Structural)]
pub struct Rect {
    pub x: i32,
    pub y: i32,
    pub w: u16,
    pub h: u16,
}

impl Rect {
    /// One past the right edge.
    pub open spec fn right(self) -> int {
        self.x + self.w
    }

    /// One past the bottom edge.
    pub open spec fn bottom(self) -> int {
        self.y + self.h
    }

    /// Whether the point lies inside the rectangle.
    pub open spec fn contains(self, px: int, py: int) -> bool {
        self.x <= px < self.right() && self.y <= py < self.bottom()
    }
}

/// A 2D integer vector: a position, an offset or a scroll.
#[derive(PartialEq, Eq, Clone, Copy, Hash, Debug, Structural)]
pub struct Vec2i(pub i32, pub i32);

/// A colour, four 8-bit channels (premultiplied alpha in texture data).
#[derive(PartialEq, Eq, Clone, Copy, Hash, Debug, Structural)]
pub struct Rgba(pub u8, pub u8, pub u8, pub u8);

impl Rgba {
    /// Channel `i` (0 red, 1 green, 2 blue, 3 alpha).
    pub open spec fn channel(self, i: int) -> u8 {
        if i == 0 {
            self.0
        } else if i == 1 {
            self.1
        } else if i == 2 {
            self.2
        } else {
            self.3
        }
    }
}

/// One named motion: a sequence of source frames with timing and a repeat policy.
#[derive(PartialEq, Eq, Clone, Hash, Debug)]
pub struct AnimationState {
    pub frames: Vec<Rect>,
    pub current_index: usize,
    pub start_time: usize,
    pub repeat: bool,
}

impl AnimationState {
    /// At least one frame, and the current frame is one of them.
    pub open spec fn wf(&self) -> bool {
        self.frames@.len() > 0 && self.current_index < self.frames@.len()
    }
}

} // verus!
