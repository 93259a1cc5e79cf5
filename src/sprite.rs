use vstd::prelude::*;

use std::rc::Rc;

use crate::animation::Animation;
use crate::screen::Screen;
use crate::texture::Texture;
use crate::types::{Rect, Vec2i};

verus! {

/// A rectangle moved by `(dx, dy)`.
pub open spec fn moved(r: Rect, dx: int, dy: int) -> Rect {
    Rect { x: (r.x + dx) as i32, y: (r.y + dy) as i32, w: r.w, h: r.h }
}

/// Moving every rectangle of `boxes` by `(dx, dy)` stays within `i32`.
pub open spec fn can_move_all(boxes: Seq<Rect>, dx: int, dy: int) -> bool {
    forall|i: int|
        0 <= i < boxes.len() ==> i32::MIN <= (#[trigger] boxes[i]).x + dx <= i32::MAX && i32::MIN
            <= boxes[i].y + dy <= i32::MAX
}

/// `after` is `before` with every rectangle moved by `(dx, dy)`.
pub open spec fn all_moved(after: Seq<Rect>, before: Seq<Rect>, dx: int, dy: int) -> bool {
    &&& after.len() == before.len()
    &&& forall|i: int| 0 <= i < before.len() ==> #[trigger] after[i] == moved(before[i], dx, dy)
}

/// A rectangle lies inside a texture.
pub open spec fn frame_fits(r: Rect, t: &Texture) -> bool {
    0 <= r.x && 0 <= r.y && r.right() <= t.spec_width() && r.bottom() <= t.spec_height()
}

/// A movable entity: a texture, an animation, a world position and world-space hit-boxes.
pub struct Sprite {
    pub image: Rc<Texture>,
    pub animation: Animation,
    pub position: Vec2i,
    pub hit_boxes: Vec<Rect>,
    pub exploded: bool,
    pub is_explodable: bool,
    pub is_obstacle: bool,
}

impl Sprite {
    /// The animation is well formed and every frame of every state lies inside the texture.
    pub open spec fn wf(&self) -> bool {
        &&& self.animation.wf()
        &&& (*self.image).wf()
        &&& forall|i: int, j: int|
            0 <= i < self.animation.states@.len() && 0 <= j < self.animation.states@[i].frames@.len()
                ==> frame_fits(#[trigger] self.animation.states@[i].frames@[j], &*self.image)
    }

    /// The source rectangle shown now.
    pub open spec fn current_frame(&self) -> Rect {
        let st = self.animation.states@[self.animation.index as int];
        st.frames@[st.current_index as int]
    }

    /// A sprite at `position` whose hit-boxes, given relative to it, are placed in the world.
    pub fn new(
        image: Rc<Texture>,
        animation: Animation,
        position: Vec2i,
        hit_boxes: Vec<Rect>,
        exploded: bool,
        is_explodable: bool,
        is_obstacle: bool,
    ) -> (r: Sprite)
        requires
            can_move_all(hit_boxes@, position.0 as int, position.1 as int),
        ensures
            r.image == image,
            r.animation == animation,
            r.position == position,
            all_moved(r.hit_boxes@, hit_boxes@, position.0 as int, position.1 as int),
            r.exploded == exploded,
            r.is_explodable == is_explodable,
            r.is_obstacle == is_obstacle,
    {
        let mut boxes = hit_boxes;
        shift_boxes(&mut boxes, position);
        Sprite {
            image,
            animation,
            position,
            hit_boxes: boxes,
            exploded,
            is_explodable,
            is_obstacle,
        }
    }

    /// Moves the sprite and all its hit-boxes by the same delta.
    pub fn move_by(&mut self, delta: Vec2i)
        requires
            i32::MIN <= old(self).position.0 + delta.0 <= i32::MAX,
            i32::MIN <= old(self).position.1 + delta.1 <= i32::MAX,
            can_move_all(old(self).hit_boxes@, delta.0 as int, delta.1 as int),
        ensures
            final(self).position == Vec2i(
                (old(self).position.0 + delta.0) as i32,
                (old(self).position.1 + delta.1) as i32,
            ),
            all_moved(final(self).hit_boxes@, old(self).hit_boxes@, delta.0 as int, delta.1 as int),
            final(self).image == old(self).image,
            final(self).animation == old(self).animation,
            final(self).exploded == old(self).exploded,
            final(self).is_explodable == old(self).is_explodable,
            final(self).is_obstacle == old(self).is_obstacle,
    {
        self.position = Vec2i(self.position.0 + delta.0, self.position.1 + delta.1);
        shift_boxes(&mut self.hit_boxes, delta);
    }
}

/// Moves every rectangle by `delta`.
fn shift_boxes(boxes: &mut Vec<Rect>, delta: Vec2i)
    requires
        can_move_all(old(boxes)@, delta.0 as int, delta.1 as int),
    ensures
        all_moved(final(boxes)@, old(boxes)@, delta.0 as int, delta.1 as int),
{
    let n = boxes.len();
    let mut i: usize = 0;
    while i < n
        invariant
            n == boxes@.len(),
            n == old(boxes)@.len(),
            i <= n,
            forall|k: int| 0 <= k < i ==> #[trigger] boxes@[k] == moved(old(boxes)@[k], delta.0 as int, delta.1 as int),
            forall|k: int| i <= k < n ==> #[trigger] boxes@[k] == old(boxes)@[k],
            can_move_all(old(boxes)@, delta.0 as int, delta.1 as int),
        decreases n - i,
    {
        let r = boxes[i];
        assert(r == old(boxes)@[i as int]);
        boxes.set(i, Rect { x: r.x + delta.0, y: r.y + delta.1, w: r.w, h: r.h });
        i = i + 1;
    }
}

/// Moves every hit-box of the sprite by `delta`, leaving its position alone.
pub fn shift_hitboxes(delta: Vec2i, sprite: &mut Sprite)
    requires
        can_move_all(old(sprite).hit_boxes@, delta.0 as int, delta.1 as int),
    ensures
        all_moved(final(sprite).hit_boxes@, old(sprite).hit_boxes@, delta.0 as int, delta.1 as int),
        final(sprite).position == old(sprite).position,
        final(sprite).image == old(sprite).image,
        final(sprite).animation == old(sprite).animation,
        final(sprite).exploded == old(sprite).exploded,
        final(sprite).is_explodable == old(sprite).is_explodable,
        final(sprite).is_obstacle == old(sprite).is_obstacle,
{
    shift_boxes(&mut sprite.hit_boxes, delta);
}

/// Advancing a sprite's animation.
pub trait AnimateExt {
    /// Whether the value can be animated.
    spec fn can_animate(&self) -> bool;

    /// `self` after `animate(current_frame)` on `before`.
    spec fn animated(&self, before: &Self, current_frame: usize) -> bool;

    /// Advances the active animation state if its frame period has passed.
    fn animate(&mut self, current_frame: usize)
        requires
            old(self).can_animate(),
        ensures
            final(self).animated(old(self), current_frame),
    ;
}

impl AnimateExt for Sprite {
    open spec fn can_animate(&self) -> bool {
        self.wf()
    }

    open spec fn animated(&self, before: &Self, current_frame: usize) -> bool {
        &&& self.wf()
        &&& self.animation.animated_from(&before.animation, current_frame as int)
        &&& self.image == before.image
        &&& self.position == before.position
        &&& self.hit_boxes == before.hit_boxes
        &&& self.exploded == before.exploded
        &&& self.is_explodable == before.is_explodable
        &&& self.is_obstacle == before.is_obstacle
    }

    fn animate(&mut self, current_frame: usize) {
        self.animation.animate(current_frame);
        proof {
            let idx = self.animation.index as int;
            assert forall|i: int, j: int|
                0 <= i < self.animation.states@.len() && 0 <= j < self.animation.states@[i].frames@.len()
                    implies frame_fits(#[trigger] self.animation.states@[i].frames@[j], &*self.image) by {
                if i != idx {
                    assert(self.animation.states@[i] == old(self).animation.states@[i]);
                } else {
                    assert(self.animation.states@[i].frames == old(self).animation.states@[i].frames);
                }
            }
        }
    }
}

/// Drawing a sprite.
pub trait DrawSpriteExt {
    /// Whether `s` can be drawn on `self`.
    spec fn can_draw(&self, s: &Sprite) -> bool;

    /// `self` after `draw_sprite(s)` on `before`.
    spec fn drawn(&self, before: &Self, s: &Sprite) -> bool;

    /// Blits the sprite's current frame at its position.
    fn draw_sprite(&mut self, s: &Sprite)
        requires
            old(self).can_draw(s),
        ensures
            final(self).drawn(old(self), s),
    ;
}

impl DrawSpriteExt for Screen {
    open spec fn can_draw(&self, s: &Sprite) -> bool {
        self.wf() && self.spec_depth() == 4 && s.wf()
    }

    open spec fn drawn(&self, before: &Self, s: &Sprite) -> bool {
        &&& self.wf()
        &&& self.spec_width() == before.spec_width()
        &&& self.spec_height() == before.spec_height()
        &&& self.spec_depth() == before.spec_depth()
        &&& self.spec_position() == before.spec_position()
        &&& forall|px: int, py: int, c: int|
            0 <= px < before.spec_width() && 0 <= py < before.spec_height() && 0 <= c < 4
                ==> #[trigger] self.byte_at(px, py, c) == before.blitted_byte(
                &*s.image,
                s.current_frame(),
                s.position,
                px,
                py,
                c,
            )
    }

    fn draw_sprite(&mut self, s: &Sprite) {
        let st = &s.animation.states[s.animation.index];
        let frame = st.frames[st.current_index];
        self.bitblt(&s.image, frame, s.position);
    }
}

} // verus!
