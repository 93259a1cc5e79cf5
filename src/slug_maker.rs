use vstd::prelude::*;

use std::rc::Rc;

use crate::animation::Animation;
use crate::slug::{movable, FIRE, GROUND, WALL};
use crate::sprite::{frame_fits, Sprite};
use crate::texture::Texture;
use crate::tile::{tiles_per_row, Tile, Tilemap, Tileset, TILE_SZ};
use crate::types::{AnimationState, Rect, Vec2i};

verus! {

/// A 48-pixel square frame at `(x, y)`.
pub open spec fn square(x: i32, y: i32) -> Rect {
    Rect { x, y, w: 48, h: 48 }
}

/// The frames of the slug characters' idle (0), left (1) and right (2) states.
pub open spec fn slug_frames(s: int) -> Seq<Rect> {
    if s == 0 {
        seq![square(0, 0), square(48, 0), square(0, 48), square(48, 48)]
    } else if s == 1 {
        seq![square(0, 0), square(48, 0)]
    } else {
        seq![square(0, 48), square(48, 48)]
    }
}

/// The slug characters' animation: three repeating states, each at its first frame.
pub open spec fn is_slug_animation(a: &Animation) -> bool {
    &&& a.wf()
    &&& a.index == 0
    &&& a.states@.len() == 3
    &&& forall|s: int|
        0 <= s < 3 ==> {
            &&& (#[trigger] a.states@[s]).frames@ == slug_frames(s)
            &&& a.states@[s].current_index == 0
            &&& a.states@[s].start_time == 0
            &&& a.states@[s].repeat
        }
}

/// A texture large enough for the slug characters' frames.
pub open spec fn holds_slug_frames(t: &Texture) -> bool {
    t.wf() && t.spec_width() >= 96 && t.spec_height() >= 96
}

fn state(frames: Vec<Rect>) -> (r: AnimationState)
    requires
        frames@.len() > 0,
    ensures
        r.frames == frames,
        r.current_index == 0,
        r.start_time == 0,
        r.repeat,
        r.wf(),
{
    AnimationState { frames, current_index: 0, start_time: 0, repeat: true }
}

/// The slug characters' animation.
pub fn slug_animation() -> (r: Animation)
    ensures
        is_slug_animation(&r),
{
    let idle = vec![
        Rect { x: 0, y: 0, w: 48, h: 48 },
        Rect { x: 48, y: 0, w: 48, h: 48 },
        Rect { x: 0, y: 48, w: 48, h: 48 },
        Rect { x: 48, y: 48, w: 48, h: 48 },
    ];
    let left = vec![Rect { x: 0, y: 0, w: 48, h: 48 }, Rect { x: 48, y: 0, w: 48, h: 48 }];
    let right = vec![Rect { x: 0, y: 48, w: 48, h: 48 }, Rect { x: 48, y: 48, w: 48, h: 48 }];
    assert(idle@ =~= slug_frames(0));
    assert(left@ =~= slug_frames(1));
    assert(right@ =~= slug_frames(2));
    let states = vec![state(idle), state(left), state(right)];
    let a = Animation::new(states);
    assert forall|s: int| 0 <= s < 3 implies (#[trigger] a.states@[s]).frames@ == slug_frames(s) && a.states@[s].current_index
        == 0 && a.states@[s].start_time == 0 && a.states@[s].repeat by {}
    a
}

/// A slug character at `position` with one hit-box at `(12, 16)`, 12 by 16, from it.
fn make_slug(image: Rc<Texture>, position: Vec2i, is_obstacle: bool) -> (r: Sprite)
    requires
        holds_slug_frames(&*image),
        0 <= position.0 <= 1000,
        0 <= position.1 <= 1000,
    ensures
        r.wf(),
        movable(&r),
        is_slug_animation(&r.animation),
        r.image == image,
        r.position == position,
        r.hit_boxes@ == seq![Rect { x: (position.0 + 12) as i32, y: (position.1 + 16) as i32, w: 12, h: 16 }],
        !r.exploded,
        !r.is_explodable,
        r.is_obstacle == is_obstacle,
{
    let anim = slug_animation();
    let boxes = vec![Rect { x: 12, y: 16, w: 12, h: 16 }];
    let r = Sprite::new(image, anim, position, boxes, false, false, is_obstacle);
    proof {
        assert(r.hit_boxes@ =~= seq![Rect { x: (position.0 + 12) as i32, y: (position.1 + 16) as i32, w: 12, h: 16 }]) by {
            assert(r.hit_boxes@[0] == crate::sprite::moved(boxes@[0], position.0 as int, position.1 as int));
        }
        assert forall|i: int, j: int|
            0 <= i < r.animation.states@.len() && 0 <= j < r.animation.states@[i].frames@.len() implies frame_fits(
            #[trigger] r.animation.states@[i].frames@[j],
            &*r.image,
        ) by {
            assert(r.animation.states@[i].frames@ == slug_frames(i));
        }
    }
    r
}

/// The player: a slug at `(10, 50)`, not an obstacle.
pub fn make_player(image: Rc<Texture>) -> (r: Sprite)
    requires
        holds_slug_frames(&*image),
    ensures
        r.wf(),
        movable(&r),
        is_slug_animation(&r.animation),
        r.image == image,
        r.position == Vec2i(10, 50),
        r.hit_boxes@ == seq![Rect { x: 22, y: 66, w: 12, h: 16 }],
        !r.exploded,
        !r.is_explodable,
        !r.is_obstacle,
{
    make_slug(image, Vec2i(10, 50), false)
}

/// The enemy: a slug at `(100, 160)` that the player must not touch.
pub fn make_enemy(image: Rc<Texture>) -> (r: Sprite)
    requires
        holds_slug_frames(&*image),
    ensures
        r.wf(),
        movable(&r),
        is_slug_animation(&r.animation),
        r.image == image,
        r.position == Vec2i(100, 160),
        r.hit_boxes@ == seq![Rect { x: 112, y: 176, w: 12, h: 16 }],
        !r.exploded,
        !r.is_explodable,
        r.is_obstacle,
{
    make_slug(image, Vec2i(100, 160), true)
}

/// The player and the enemy, in that order.
pub fn make_core(player_image: Rc<Texture>, enemy_image: Rc<Texture>) -> (r: Vec<Sprite>)
    requires
        holds_slug_frames(&*player_image),
        holds_slug_frames(&*enemy_image),
    ensures
        r@.len() == 2,
        movable(&r@[0]),
        movable(&r@[1]),
        r@[0].wf(),
        r@[1].wf(),
        r@[0].position == Vec2i(10, 50),
        r@[1].position == Vec2i(100, 160),
        r@[0].image == player_image,
        r@[1].image == enemy_image,
        is_slug_animation(&r@[0].animation),
        is_slug_animation(&r@[1].animation),
        r@[0].hit_boxes@ == seq![Rect { x: 22, y: 66, w: 12, h: 16 }],
        r@[1].hit_boxes@ == seq![Rect { x: 112, y: 176, w: 12, h: 16 }],
        !r@[0].exploded && !r@[0].is_explodable && !r@[0].is_obstacle,
        !r@[1].exploded && !r@[1].is_explodable && r@[1].is_obstacle,
{
    let mut core: Vec<Sprite> = Vec::new();
    core.push(make_player(player_image));
    core.push(make_enemy(enemy_image));
    core
}

/// The starting layout, in blocks of 25 cells: a wall at offset 6, fire at offset 15, ground
/// elsewhere.
pub open spec fn start_cell(i: int) -> usize {
    if i % 25 == 6 {
        WALL
    } else if i % 25 == 15 {
        FIRE
    } else {
        GROUND
    }
}

/// A texture with room for the four slug tiles, addressable by rectangles.
pub open spec fn holds_slug_tiles(t: &Texture) -> bool {
    &&& t.wf()
    &&& t.spec_width() <= i32::MAX
    &&& t.spec_height() <= i32::MAX
    &&& tiles_per_row(t) * (t.spec_height() as int / TILE_SZ as int) >= 4
}

/// The starting 10 by 10 map at the origin, over four solid tiles drawn from `texture`.
pub fn reset_tiles(texture: Rc<Texture>) -> (r: Tilemap)
    requires
        holds_slug_tiles(&*texture),
    ensures
        r.wf(),
        r.origin() == Vec2i(0, 0),
        r.cols() == 10,
        r.rows() == 10,
        r.spec_tileset().tiles@.len() == 4,
        forall|k: int| 0 <= k < 4 ==> (#[trigger] r.spec_tileset().tiles@[k]).solid,
        r.spec_tileset().texture == texture,
        r.cells().len() == 100,
        forall|i: int| 0 <= i < 100 ==> (#[trigger] r.cells()[i]).0 == start_cell(i),
{
    let tiles = vec![Tile { solid: true }, Tile { solid: true }, Tile { solid: true }, Tile { solid: true }];
    assert(tiles@ =~= seq![Tile { solid: true }, Tile { solid: true }, Tile { solid: true }, Tile { solid: true }]);
    let tile_set = Rc::new(Tileset { tiles, texture });
    let mut map: Vec<usize> = Vec::new();
    let mut i: usize = 0;
    while i < 100
        invariant
            i <= 100,
            map@.len() == i,
            forall|k: int| 0 <= k < i ==> #[trigger] map@[k] == start_cell(k),
        decreases 100 - i,
    {
        let id = if i % 25 == 6 {
            WALL
        } else if i % 25 == 15 {
            FIRE
        } else {
            GROUND
        };
        map.push(id);
        i = i + 1;
    }
    Tilemap::new(Vec2i(0, 0), (10, 10), tile_set, map)
}

} // verus!
