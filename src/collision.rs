use vstd::prelude::*;

use crate::animation::StartAnim;
use crate::sprite::Sprite;
use crate::types::{Rect, Vec2i};

verus! {

pub open spec fn min_int(a: int, b: int) -> int {
    if a <= b { a } else { b }
}

pub open spec fn max_int(a: int, b: int) -> int {
    if a >= b { a } else { b }
}

/// Width of the common part of the two rectangles' column ranges (negative when apart).
pub open spec fn x_overlap(a: Rect, b: Rect) -> int {
    min_int(a.right(), b.right()) - max_int(a.x as int, b.x as int)
}

/// Height of the common part of the two rectangles' row ranges (negative when apart).
pub open spec fn y_overlap(a: Rect, b: Rect) -> int {
    min_int(a.bottom(), b.bottom()) - max_int(a.y as int, b.y as int)
}

/// Two rectangles touch or overlap; a shared edge counts.
pub open spec fn rects_touch(a: Rect, b: Rect) -> bool {
    x_overlap(a, b) >= 0 && y_overlap(a, b) >= 0
}

/// Boundary-inclusive overlap test of two rectangles.
pub fn rect_displacement(r1: Rect, r2: Rect) -> (r: bool)
    ensures
        r == rects_touch(r1, r2),
{
    let r1_right = r1.x as i64 + r1.w as i64;
    let r2_right = r2.x as i64 + r2.w as i64;
    let r1_bottom = r1.y as i64 + r1.h as i64;
    let r2_bottom = r2.y as i64 + r2.h as i64;
    let right = if r1_right <= r2_right { r1_right } else { r2_right };
    let left = if r1.x >= r2.x { r1.x as i64 } else { r2.x as i64 };
    let bottom = if r1_bottom <= r2_bottom { r1_bottom } else { r2_bottom };
    let top = if r1.y >= r2.y { r1.y as i64 } else { r2.y as i64 };
    let x_overlap = right - left;
    let y_overlap = bottom - top;
    x_overlap >= 0 && y_overlap >= 0
}

/// The overlap test does not depend on the order of its arguments.
pub proof fn lemma_touch_symmetric(a: Rect, b: Rect)
    ensures
        rects_touch(a, b) == rects_touch(b, a),
{
}

/// Every rectangle overlaps itself, even one of zero width or height.
pub proof fn lemma_touch_reflexive(a: Rect)
    ensures
        rects_touch(a, a),
{
}

/// Rectangles that share only an edge overlap.
pub proof fn lemma_shared_edge_touches(a: Rect, b: Rect)
    requires
        a.right() == b.x,
        a.y == b.y,
    ensures
        x_overlap(a, b) == 0,
        rects_touch(a, b),
{
}

/// Some hit-box of `p` touches some hit-box of `q`.
pub open spec fn boxes_touch(p: Seq<Rect>, q: Seq<Rect>) -> bool {
    exists|i: int, j: int| 0 <= i < p.len() && 0 <= j < q.len() && rects_touch(#[trigger] p[i], #[trigger] q[j])
}

/// `q` is an obstacle and touches `p`.
pub open spec fn blocks(p: &Sprite, q: &Sprite) -> bool {
    q.is_obstacle && boxes_touch(p.hit_boxes@, q.hit_boxes@)
}

/// Whether some hit-box of `p` touches some hit-box of `q`.
pub fn hit_boxes_touch(p: &Vec<Rect>, q: &Vec<Rect>) -> (r: bool)
    ensures
        r == boxes_touch(p@, q@),
{
    let mut i: usize = 0;
    while i < p.len()
        invariant
            i <= p@.len(),
            forall|a: int, b: int| 0 <= a < i && 0 <= b < q@.len() ==> !rects_touch(#[trigger] p@[a], #[trigger] q@[b]),
        decreases p@.len() - i,
    {
        let mut j: usize = 0;
        while j < q.len()
            invariant
                i < p@.len(),
                j <= q@.len(),
                forall|a: int, b: int| 0 <= a < i && 0 <= b < q@.len() ==> !rects_touch(#[trigger] p@[a], #[trigger] q@[b]),
                forall|b: int| 0 <= b < j ==> !rects_touch(p@[i as int], #[trigger] q@[b]),
            decreases q@.len() - j,
        {
            if rect_displacement(p[i], q[j]) {
                return true;
            }
            j = j + 1;
        }
        i = i + 1;
    }
    false
}

/// Whether the player, sprite 0, is blocked by some obstacle among sprites `start_index..`.
pub fn player_contacts(sprites: &Vec<Sprite>, start_index: usize) -> (r: bool)
    requires
        sprites@.len() > 0,
    ensures
        r == exists|k: int| start_index <= k < sprites@.len() && k != 0 && blocks(&sprites@[0], #[trigger] &sprites@[k]),
{
    let mut k: usize = start_index;
    if k == 0 {
        k = 1;
    }
    while k < sprites.len()
        invariant
            sprites@.len() > 0,
            1 <= k,
            start_index <= k,
            forall|m: int| start_index <= m < k && m != 0 ==> !blocks(&sprites@[0], #[trigger] &sprites@[m]),
        decreases sprites@.len() - k,
    {
        if sprites[k].is_obstacle && hit_boxes_touch(&sprites[0].hit_boxes, &sprites[k].hit_boxes) {
            return true;
        }
        k = k + 1;
    }
    false
}

/// The least index from `start` on, other than `probe`, of a sprite that blocks `probe`, if any.
pub fn first_contact_from(sprites: &Vec<Sprite>, probe: usize, start: usize) -> (r: Option<usize>)
    requires
        probe < sprites@.len(),
    ensures
        r matches Some(k) ==> start <= k < sprites@.len() && k != probe && blocks(&sprites@[probe as int], &sprites@[k as int])
            && forall|m: int| start <= m < k && m != probe ==> !blocks(&sprites@[probe as int], #[trigger] &sprites@[m]),
        r is None ==> forall|m: int| start <= m < sprites@.len() && m != probe ==> !blocks(&sprites@[probe as int], #[trigger] &sprites@[m]),
{
    let mut k: usize = start;
    while k < sprites.len()
        invariant
            probe < sprites@.len(),
            start <= k,
            forall|m: int| start <= m < k && m != probe ==> !blocks(&sprites@[probe as int], #[trigger] &sprites@[m]),
        decreases sprites@.len() - k,
    {
        if k != probe && sprites[k].is_obstacle && hit_boxes_touch(&sprites[probe].hit_boxes, &sprites[k].hit_boxes) {
            return Some(k);
        }
        k = k + 1;
    }
    None
}

/// The least index, other than `probe`, of a sprite that blocks `probe`, if any.
pub fn first_contact(sprites: &Vec<Sprite>, probe: usize) -> (r: Option<usize>)
    requires
        probe < sprites@.len(),
    ensures
        r matches Some(k) ==> k < sprites@.len() && k != probe && blocks(&sprites@[probe as int], &sprites@[k as int])
            && forall|m: int| 0 <= m < k && m != probe ==> !blocks(&sprites@[probe as int], #[trigger] &sprites@[m]),
        r is None ==> forall|m: int| 0 <= m < sprites@.len() && m != probe ==> !blocks(&sprites@[probe as int], #[trigger] &sprites@[m]),
{
    first_contact_from(sprites, probe, 0)
}

/// Sprites 1 to 3 are shots; those from 4 on are targets.
pub const FIRST_TARGET: usize = 4;

/// Shot `l`'s first hit-box touches some hit-box of obstacle `i`.
pub open spec fn shot_hits(sprites: Seq<Sprite>, l: int, i: int) -> bool {
    &&& 1 <= l < FIRST_TARGET
    &&& FIRST_TARGET <= i < sprites.len()
    &&& sprites[i].is_obstacle
    &&& sprites[l].hit_boxes@.len() > 0
    &&& boxes_touch(seq![sprites[l].hit_boxes@[0]], sprites[i].hit_boxes@)
}

/// Shot `l` hit some target.
pub open spec fn shot_landed(sprites: Seq<Sprite>, l: int) -> bool {
    exists|i: int| #[trigger] shot_hits(sprites, l, i)
}

/// Target `i` was hit by some shot.
pub open spec fn target_struck(sprites: Seq<Sprite>, i: int) -> bool {
    exists|l: int| #[trigger] shot_hits(sprites, l, i)
}

/// What `laser_contacts` leaves in sprite `k`, given the sprites before.
pub open spec fn after_shots(before: Seq<Sprite>, after: Seq<Sprite>, k: int, frame: usize) -> bool {
    let b = before[k];
    let a = after[k];
    if shot_landed(before, k) {
        &&& a.position == Vec2i(b.position.0, -200i32)
        &&& a.hit_boxes@ == b.hit_boxes@.update(0, Rect { x: -20i32, y: -20i32, ..b.hit_boxes@[0] })
        &&& a.image == b.image
        &&& a.animation == b.animation
        &&& a.exploded == b.exploded
        &&& a.is_explodable == b.is_explodable
        &&& a.is_obstacle == b.is_obstacle
    } else if target_struck(before, k) && b.is_explodable {
        &&& a.exploded
        &&& !a.is_obstacle
        &&& a.animation.entered(&b.animation, 1, frame)
        &&& a.position == b.position
        &&& a.hit_boxes == b.hit_boxes
        &&& a.image == b.image
        &&& a.is_explodable == b.is_explodable
    } else {
        a == b
    }
}

/// Which shots (sprites 1 to 3) hit an obstacle, and which targets (sprites 4 on) they hit.
pub fn shot_contacts(sprites: &Vec<Sprite>) -> (r: (Vec<bool>, Vec<bool>))
    requires
        sprites@.len() >= FIRST_TARGET,
        forall|l: int| 1 <= l < FIRST_TARGET ==> (#[trigger] sprites@[l]).hit_boxes@.len() > 0,
    ensures
        r.0@.len() == sprites@.len(),
        r.1@.len() == sprites@.len(),
        forall|k: int| 0 <= k < sprites@.len() ==> #[trigger] r.0@[k] == shot_landed(sprites@, k),
        forall|k: int| 0 <= k < sprites@.len() ==> #[trigger] r.1@[k] == target_struck(sprites@, k),
{
    let n = sprites.len();
    let mut landed: Vec<bool> = Vec::new();
    let mut struck: Vec<bool> = Vec::new();
    let mut k: usize = 0;
    while k < n
        invariant
            n == sprites@.len(),
            n >= FIRST_TARGET,
            forall|l: int| 1 <= l < FIRST_TARGET ==> (#[trigger] sprites@[l]).hit_boxes@.len() > 0,
            k <= n,
            landed@.len() == k,
            struck@.len() == k,
            forall|m: int| 0 <= m < k ==> #[trigger] landed@[m] == shot_landed(sprites@, m),
            forall|m: int| 0 <= m < k ==> #[trigger] struck@[m] == target_struck(sprites@, m),
        decreases n - k,
    {
        let mut hit = false;
        let mut was_hit = false;
        if 1 <= k && k < FIRST_TARGET {
            let shot = vec![sprites[k].hit_boxes[0]];
            assert(shot@ =~= seq![sprites@[k as int].hit_boxes@[0]]);
            let mut i: usize = FIRST_TARGET;
            while i < n
                invariant
                    n == sprites@.len(),
                    1 <= k < FIRST_TARGET,
                    FIRST_TARGET <= i <= n,
                    sprites@[k as int].hit_boxes@.len() > 0,
                    shot@ == seq![sprites@[k as int].hit_boxes@[0]],
                    hit == exists|m: int| FIRST_TARGET <= m < i && #[trigger] shot_hits(sprites@, k as int, m),
                decreases n - i,
            {
                if sprites[i].is_obstacle && hit_boxes_touch(&shot, &sprites[i].hit_boxes) {
                    hit = true;
                }
                assert(shot_hits(sprites@, k as int, i as int) == (sprites@[i as int].is_obstacle && boxes_touch(shot@, sprites@[i as int].hit_boxes@)));
                i = i + 1;
            }
        }
        if k >= FIRST_TARGET && sprites[k].is_obstacle {
            let mut l: usize = 1;
            while l < FIRST_TARGET
                invariant
                    n == sprites@.len(),
                    FIRST_TARGET <= k < n,
                    1 <= l <= FIRST_TARGET,
                    forall|j: int| 1 <= j < FIRST_TARGET ==> (#[trigger] sprites@[j]).hit_boxes@.len() > 0,
                    sprites@[k as int].is_obstacle,
                    was_hit == exists|m: int| 1 <= m < l && #[trigger] shot_hits(sprites@, m, k as int),
                decreases FIRST_TARGET - l,
            {
                let shot = vec![sprites[l].hit_boxes[0]];
                assert(shot@ =~= seq![sprites@[l as int].hit_boxes@[0]]);
                if hit_boxes_touch(&shot, &sprites[k].hit_boxes) {
                    was_hit = true;
                }
                assert(shot_hits(sprites@, l as int, k as int) == boxes_touch(shot@, sprites@[k as int].hit_boxes@));
                l = l + 1;
            }
        }
        landed.push(hit);
        struck.push(was_hit);
        k = k + 1;
    }
    (landed, struck)
}

/// Retires every shot that hit an obstacle (moved off the world) and explodes every
/// explodable target that was hit: it stops being an obstacle and enters animation state 1.
pub fn laser_contacts(sprites: &mut Vec<Sprite>, frame: usize)
    requires
        old(sprites)@.len() >= FIRST_TARGET,
        forall|l: int| 1 <= l < FIRST_TARGET ==> (#[trigger] old(sprites)@[l]).hit_boxes@.len() > 0,
        forall|i: int|
            FIRST_TARGET <= i < old(sprites)@.len() && (#[trigger] old(sprites)@[i]).is_explodable
                ==> old(sprites)@[i].animation.can_enter(1),
    ensures
        final(sprites)@.len() == old(sprites)@.len(),
        forall|k: int| 0 <= k < old(sprites)@.len() ==> #[trigger] after_shots(old(sprites)@, final(sprites)@, k, frame),
{
    let (landed, struck) = shot_contacts(sprites);
    let n = sprites.len();
    let ghost pre = sprites@;
    let mut k: usize = 0;
    while k < n
        invariant
            n == sprites@.len(),
            n == pre.len(),
            pre == old(sprites)@,
            k <= n,
            landed@.len() == n,
            struck@.len() == n,
            forall|m: int| 0 <= m < n ==> #[trigger] landed@[m] == shot_landed(pre, m),
            forall|m: int| 0 <= m < n ==> #[trigger] struck@[m] == target_struck(pre, m),
            forall|l: int| 1 <= l < FIRST_TARGET ==> (#[trigger] pre[l]).hit_boxes@.len() > 0,
            forall|i: int|
                FIRST_TARGET <= i < n && (#[trigger] pre[i]).is_explodable ==> pre[i].animation.can_enter(1),
            forall|m: int| 0 <= m < k ==> #[trigger] after_shots(pre, sprites@, m, frame),
            forall|m: int| k <= m < n ==> #[trigger] sprites@[m] == pre[m],
        decreases n - k,
    {
        let ghost before_k = sprites@;
        if landed[k] {
            let ghost w: int = choose|i: int| #[trigger] shot_hits(pre, k as int, i);
            assert(1 <= k < FIRST_TARGET);
            sprites[k].position.1 = -200;
            sprites[k].hit_boxes[0].y = -20;
            sprites[k].hit_boxes[0].x = -20;
            proof {
                let b = pre[k as int];
                assert(sprites@[k as int].hit_boxes@ =~= b.hit_boxes@.update(0, Rect { x: -20i32, y: -20i32, ..b.hit_boxes@[0] }));
            }
        } else if struck[k] && sprites[k].is_explodable {
            let ghost l: int = choose|l: int| #[trigger] shot_hits(pre, l, k as int);
            assert(FIRST_TARGET <= k);
            sprites[k].exploded = true;
            sprites[k].is_obstacle = false;
            sprites[k].animation.set_state(1, frame);
        }
        proof {
            assert forall|m: int| 0 <= m < n && m != k implies #[trigger] sprites@[m] == before_k[m] by {}
            assert(after_shots(pre, sprites@, k as int, frame));
            assert forall|m: int| 0 <= m < k + 1 implies #[trigger] after_shots(pre, sprites@, m, frame) by {
                if m < k {
                    assert(sprites@[m] == before_k[m]);
                    assert(after_shots(pre, before_k, m, frame));
                }
            }
        }
        k = k + 1;
    }
}

} // verus!
