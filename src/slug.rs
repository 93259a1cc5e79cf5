use vstd::prelude::*;

use crate::animation::{Animation, StartAnim};
use crate::collision::{blocks, player_contacts};
use crate::sprite::{all_moved, can_move_all, Sprite};
use crate::tile::{TileID, Tilemap};
use crate::sprite::moved;
use crate::types::{Rect, Vec2i};

verus! {

/// Tile kind that blocks movement.
pub const WALL: usize = 0;

/// Tile kind the player covers with slime.
pub const GROUND: usize = 1;

/// Tile kind left behind by the player.
pub const SLIME: usize = 2;

/// Tile kind that kills the player and repels the enemy.
pub const FIRE: usize = 3;

/// Side of a sprite's square bounding box in pixels.
pub const SPRITE_SZ: i32 = 48;

/// How far inside the bounding box each corner probe sits.
#[derive(PartialEq, Eq, Clone, Copy, Debug, Structural)]
pub struct Insets {
    pub left: i32,
    pub top: i32,
    pub right: i32,
    pub bottom: i32,
}

/// Four probe points: top-left, top-right, bottom-left, bottom-right.
#[derive(PartialEq, Eq, Clone, Copy, Debug, Structural)]
pub struct Corners {
    pub tl: Vec2i,
    pub tr: Vec2i,
    pub bl: Vec2i,
    pub br: Vec2i,
}

impl Insets {
    /// Each inset lies within the box.
    pub open spec fn wf(&self) -> bool {
        0 <= self.left <= SPRITE_SZ && 0 <= self.top <= SPRITE_SZ && 0 <= self.right <= SPRITE_SZ && 0
            <= self.bottom <= SPRITE_SZ
    }
}

/// The insets the slug game uses for both of its characters.
pub fn slug_insets() -> (r: Insets)
    ensures
        r == (Insets { left: 12, top: 8, right: 8, bottom: 12 }),
{
    Insets { left: 12, top: 8, right: 8, bottom: 12 }
}

/// Both coordinates lie within `b` of the origin.
pub open spec fn bounded(p: Vec2i, b: int) -> bool {
    -b <= p.0 <= b && -b <= p.1 <= b
}

/// A position leaves room for a frame's moves within `i32`.
pub open spec fn roomy(p: Vec2i) -> bool {
    bounded(p, 1_000_000_000)
}

/// The probe points of the box whose top-left corner is `p`.
pub open spec fn spec_corners(p: Vec2i, ins: Insets) -> Corners {
    let x1 = p.0 as int;
    let y1 = p.1 as int;
    let x2 = x1 + SPRITE_SZ;
    let y2 = y1 + SPRITE_SZ;
    Corners {
        tl: Vec2i((x1 + ins.left) as i32, (y1 + ins.top) as i32),
        tr: Vec2i((x2 - ins.right) as i32, (y1 + ins.top) as i32),
        bl: Vec2i((x1 + ins.left) as i32, (y2 - ins.bottom) as i32),
        br: Vec2i((x2 - ins.right) as i32, (y2 - ins.bottom) as i32),
    }
}

/// The probe points of the box whose top-left corner is `p`.
pub fn corners(p: Vec2i, ins: Insets) -> (r: Corners)
    requires
        bounded(p, 2_000_000_000),
        ins.wf(),
    ensures
        r == spec_corners(p, ins),
{
    let x2 = p.0 + SPRITE_SZ;
    let y2 = p.1 + SPRITE_SZ;
    Corners {
        tl: Vec2i(p.0 + ins.left, p.1 + ins.top),
        tr: Vec2i(x2 - ins.right, p.1 + ins.top),
        bl: Vec2i(p.0 + ins.left, y2 - ins.bottom),
        br: Vec2i(x2 - ins.right, y2 - ins.bottom),
    }
}

/// Axis-priority separation: the push for a box whose corners lie in the given kind of tile.
/// A blocked left side pushes right, or down when only its top is blocked; a blocked bottom
/// pushes up, or right when only its left is blocked; a blocked right side pushes left, or
/// down when only its top is blocked. The three pushes add up.
pub open spec fn push_delta(tl: bool, tr: bool, bl: bool, br: bool, step: int) -> (int, int) {
    let a = if tl {
        if bl { (step, 0int) } else { (0int, step) }
    } else {
        (0int, 0int)
    };
    let b = if bl {
        if br { (0int, -step) } else { (step, 0int) }
    } else {
        (0int, 0int)
    };
    let c = if tr {
        if br { (-step, 0int) } else { (0int, step) }
    } else {
        (0int, 0int)
    };
    (a.0 + b.0 + c.0, a.1 + b.1 + c.1)
}

/// The axis-priority push for the given blocked corners.
pub fn wall_push(tl: bool, tr: bool, bl: bool, br: bool, step: i32) -> (r: Vec2i)
    requires
        i32::MIN <= 2 * step <= i32::MAX,
    ensures
        r.0 == push_delta(tl, tr, bl, br, step as int).0,
        r.1 == push_delta(tl, tr, bl, br, step as int).1,
{
    let mut dx: i32 = 0;
    let mut dy: i32 = 0;
    if tl {
        if bl {
            dx = dx + step;
        } else {
            dy = dy + step;
        }
    }
    if bl {
        if br {
            dy = dy - step;
        } else {
            dx = dx + step;
        }
    }
    if tr {
        if br {
            dx = dx - step;
        } else {
            dy = dy + step;
        }
    }
    Vec2i(dx, dy)
}

/// The tile under each probe point.
pub open spec fn corner_tiles(m: &Tilemap, c: Corners) -> (TileID, TileID, TileID, TileID) {
    (
        m.cells()[m.index_of(c.tl)],
        m.cells()[m.index_of(c.tr)],
        m.cells()[m.index_of(c.bl)],
        m.cells()[m.index_of(c.br)],
    )
}

/// The push away from tiles of kind `kind` for probes `c`.
#[verifier::opaque]
pub open spec fn separation(m: &Tilemap, c: Corners, kind: usize, step: int) -> (int, int) {
    let t = corner_tiles(m, c);
    push_delta(t.0.0 == kind, t.1.0 == kind, t.2.0 == kind, t.3.0 == kind, step)
}

/// Every hit-box corner lies within `b` of the origin.
pub open spec fn boxes_bounded(s: Seq<Rect>, b: int) -> bool {
    forall|i: int| 0 <= i < s.len() ==> -b <= (#[trigger] s[i]).x <= b && -b <= s[i].y <= b
}

/// Hit-boxes that leave room for a frame's moves within `i32`.
pub open spec fn boxes_roomy(s: &Sprite) -> bool {
    boxes_bounded(s.hit_boxes@, 1_000_000_000)
}

/// Rectangles moved by at most `k` stay within `b + k`.
pub proof fn lemma_moved_bounded(after: Seq<Rect>, before: Seq<Rect>, dx: int, dy: int, b: int, k: int)
    requires
        all_moved(after, before, dx, dy),
        boxes_bounded(before, b),
        -k <= dx <= k,
        -k <= dy <= k,
        0 <= k,
        b + k <= i32::MAX,
    ensures
        boxes_bounded(after, b + k),
        can_move_all(before, dx, dy),
{
    assert forall|i: int| 0 <= i < after.len() implies -(b + k) <= (#[trigger] after[i]).x <= b + k && -(b + k)
        <= after[i].y <= b + k by {
        assert(after[i] == moved(before[i], dx, dy));
    }
}

/// Two moves in a row are one move by their sum.
pub proof fn lemma_moved_twice(
    c: Seq<Rect>,
    b: Seq<Rect>,
    a: Seq<Rect>,
    dx1: int,
    dy1: int,
    dx2: int,
    dy2: int,
)
    requires
        all_moved(b, a, dx1, dy1),
        all_moved(c, b, dx2, dy2),
        can_move_all(a, dx1, dy1),
        can_move_all(b, dx2, dy2),
    ensures
        all_moved(c, a, dx1 + dx2, dy1 + dy2),
{
    assert forall|i: int| 0 <= i < a.len() implies #[trigger] c[i] == moved(a[i], dx1 + dx2, dy1 + dy2) by {
        assert(b[i] == moved(a[i], dx1, dy1));
        assert(c[i] == moved(b[i], dx2, dy2));
    }
}

/// The absolute value of `v`.
pub open spec fn magnitude(v: int) -> int {
    if v >= 0 { v } else { -v }
}

/// A point can move by up to `k` along each axis within `i32`.
pub open spec fn fits_move(p: Vec2i, k: int) -> bool {
    i32::MIN + k <= p.0 <= i32::MAX - k && i32::MIN + k <= p.1 <= i32::MAX - k
}

/// Every rectangle can move by up to `k` along each axis within `i32`.
pub open spec fn boxes_fit_move(s: Seq<Rect>, k: int) -> bool {
    forall|i: int| 0 <= i < s.len() ==> fits_move(Vec2i((#[trigger] s[i]).x, s[i].y), k)
}

/// Rectangles within `b` of the origin can move by `(dx, dy)`, or by anything up to `k`, when
/// `b + k` fits in `i32`.
pub proof fn lemma_bounded_can_move(s: Seq<Rect>, b: int, k: int, dx: int, dy: int)
    requires
        boxes_bounded(s, b),
        0 <= k,
        b + k <= i32::MAX,
        -k <= dx <= k,
        -k <= dy <= k,
    ensures
        can_move_all(s, dx, dy),
        boxes_fit_move(s, k),
{
    assert forall|i: int| 0 <= i < s.len() implies fits_move(Vec2i((#[trigger] s[i]).x, s[i].y), k) by {}
}

/// Looks up the tiles under the probes `c` and moves the sprite, with its hit-boxes, out of
/// tiles of kind `kind` by the axis-priority rule; returns the move.
pub fn separate(sprite: &mut Sprite, m: &Tilemap, c: Corners, kind: usize, step: i32) -> (r: Vec2i)
    requires
        m.wf(),
        m.cols() > 0,
        m.rows() > 0,
        i32::MIN <= 2 * step <= i32::MAX,
        fits_move(old(sprite).position, 2 * magnitude(step as int)),
        boxes_fit_move(old(sprite).hit_boxes@, 2 * magnitude(step as int)),
    ensures
        r.0 == separation(m, c, kind, step as int).0,
        r.1 == separation(m, c, kind, step as int).1,
        final(sprite).position == Vec2i(
            (old(sprite).position.0 + r.0) as i32,
            (old(sprite).position.1 + r.1) as i32,
        ),
        all_moved(final(sprite).hit_boxes@, old(sprite).hit_boxes@, r.0 as int, r.1 as int),
        final(sprite).image == old(sprite).image,
        final(sprite).animation == old(sprite).animation,
        final(sprite).exploded == old(sprite).exploded,
        final(sprite).is_explodable == old(sprite).is_explodable,
        final(sprite).is_obstacle == old(sprite).is_obstacle,
        -2 * magnitude(step as int) <= r.0 <= 2 * magnitude(step as int),
        -2 * magnitude(step as int) <= r.1 <= 2 * magnitude(step as int),
{
    proof {
        reveal(separation);
    }
    let tl = m.tile_id_at(c.tl);
    let tr = m.tile_id_at(c.tr);
    let bl = m.tile_id_at(c.bl);
    let br = m.tile_id_at(c.br);
    let d = wall_push(tl.0 == kind, tr.0 == kind, bl.0 == kind, br.0 == kind, step);
    sprite.move_by(d);
    d
}

/// Number of cells holding tile kind `kind`.
pub open spec fn count_kind(cells: Seq<TileID>, kind: usize) -> nat
    decreases cells.len(),
{
    if cells.len() == 0 {
        0
    } else {
        count_kind(cells.drop_last(), kind) + if cells.last().0 == kind { 1nat } else { 0nat }
    }
}

/// Number of cells the player has covered with slime.
pub fn all_slime(tile_map: &Tilemap) -> (r: usize)
    ensures
        r == count_kind(tile_map.cells(), SLIME),
{
    let cells = tile_map.map();
    let mut total: usize = 0;
    let mut i: usize = 0;
    while i < cells.len()
        invariant
            cells@ == tile_map.cells(),
            i <= cells@.len(),
            total == count_kind(cells@.take(i as int), SLIME),
            total <= i,
        decreases cells@.len() - i,
    {
        proof {
            assert(cells@.take(i as int + 1).drop_last() =~= cells@.take(i as int));
        }
        if cells[i].0 == SLIME {
            total = total + 1;
        }
        i = i + 1;
    }
    proof {
        assert(cells@.take(i as int) =~= cells@);
    }
    total
}

/// Cell `i` becomes slime when `hit` holds.
pub open spec fn cover_at(cells: Seq<TileID>, i: int, hit: bool) -> Seq<TileID> {
    if hit { cells.update(i, TileID(SLIME)) } else { cells }
}

/// The cells after covering every probe that found ground (as first looked up) with slime.
pub open spec fn covered_cells(m: &Tilemap, c: Corners) -> Seq<TileID> {
    let t = corner_tiles(m, c);
    let s0 = cover_at(m.cells(), m.index_of(c.tl), t.0.0 == GROUND);
    let s1 = cover_at(s0, m.index_of(c.tr), t.1.0 == GROUND);
    let s2 = cover_at(s1, m.index_of(c.bl), t.2.0 == GROUND);
    cover_at(s2, m.index_of(c.br), t.3.0 == GROUND)
}

/// How many probes found ground (a cell under two probes counts twice).
pub open spec fn ground_probes(m: &Tilemap, c: Corners) -> nat {
    let t = corner_tiles(m, c);
    (if t.0.0 == GROUND { 1nat } else { 0nat }) + (if t.1.0 == GROUND { 1nat } else { 0nat }) + (if t.2.0
        == GROUND { 1nat } else { 0nat }) + (if t.3.0 == GROUND { 1nat } else { 0nat })
}

/// Covers with slime the ground cells under the probes; returns how many probes found ground.
pub fn cover_tiles(m: &mut Tilemap, c: Corners) -> (r: usize)
    requires
        old(m).wf(),
        old(m).cols() > 0,
        old(m).rows() > 0,
        SLIME < old(m).spec_tileset().tiles@.len(),
    ensures
        final(m).wf(),
        final(m).cells() == covered_cells(old(m), c),
        r == ground_probes(old(m), c),
        final(m).origin() == old(m).origin(),
        final(m).cols() == old(m).cols(),
        final(m).rows() == old(m).rows(),
        final(m).spec_tileset() == old(m).spec_tileset(),
{
    let tl = m.tile_id_at(c.tl);
    let tr = m.tile_id_at(c.tr);
    let bl = m.tile_id_at(c.bl);
    let br = m.tile_id_at(c.br);
    let ghost m0 = *m;
    let mut n: usize = 0;
    if tl.0 == GROUND {
        let i = m.tile_index_at(c.tl);
        m.set_tile(i, TileID(SLIME));
        n = n + 1;
    }
    assert(m.index_of(c.tr) == m0.index_of(c.tr));
    if tr.0 == GROUND {
        let i = m.tile_index_at(c.tr);
        m.set_tile(i, TileID(SLIME));
        n = n + 1;
    }
    if bl.0 == GROUND {
        let i = m.tile_index_at(c.bl);
        m.set_tile(i, TileID(SLIME));
        n = n + 1;
    }
    if br.0 == GROUND {
        let i = m.tile_index_at(c.br);
        m.set_tile(i, TileID(SLIME));
        n = n + 1;
    }
    n
}

/// Menu screen offering a new game.
pub const MENU_PLAY: usize = 0;

/// Menu screen offering to load the saved map.
pub const MENU_LOAD: usize = 1;

/// Menu screen offering the help page.
pub const MENU_TUTORIAL: usize = 2;

/// The help page.
pub const MENU_HELP: usize = 3;

/// What the menu asks the game to do.
#[derive(PartialEq, Eq, Clone, Copy, Debug, Structural)]
pub enum MenuAction {
    Stay,
    NewGame,
    LoadGame,
}

/// Keys pressed on the menu this frame.
#[derive(PartialEq, Eq, Clone, Copy, Debug, Structural)]
pub struct MenuKeys {
    pub up: bool,
    pub down: bool,
    pub enter: bool,
}

/// The selected screen after the up and down keys: the first three entries form a ring; the
/// help screen ignores them.
pub open spec fn menu_moved(tex: usize, keys: MenuKeys) -> usize {
    let t1: usize = if keys.up && tex != MENU_HELP {
        if tex != 0 { ((tex - 1) % 3) as usize } else { 2 }
    } else {
        tex
    };
    if keys.down && t1 != MENU_HELP { ((t1 + 1) % 3) as usize } else { t1 }
}

/// One menu step: moves the selection, then acts on enter (start, load, open help, close help).
pub fn update_menu(current_tex: usize, keys: MenuKeys) -> (r: (usize, MenuAction))
    requires
        current_tex <= MENU_HELP,
    ensures
        r.1 == (if keys.enter && menu_moved(current_tex, keys) == MENU_PLAY {
            MenuAction::NewGame
        } else if keys.enter && menu_moved(current_tex, keys) == MENU_LOAD {
            MenuAction::LoadGame
        } else {
            MenuAction::Stay
        }),
        r.0 == (if keys.enter && menu_moved(current_tex, keys) == MENU_TUTORIAL {
            MENU_HELP
        } else if keys.enter && menu_moved(current_tex, keys) == MENU_HELP {
            MENU_PLAY
        } else {
            menu_moved(current_tex, keys)
        }),
        r.0 <= MENU_HELP,
{
    let mut tex = current_tex;
    if keys.up && tex != MENU_HELP {
        if tex != 0 {
            tex = (tex - 1) % 3;
        } else {
            tex = 2;
        }
    }
    if keys.down && tex != MENU_HELP {
        tex = (tex + 1) % 3;
    }
    let mut action = MenuAction::Stay;
    if keys.enter {
        if tex == MENU_PLAY {
            action = MenuAction::NewGame;
        } else if tex == MENU_LOAD {
            action = MenuAction::LoadGame;
        } else if tex == MENU_TUTORIAL {
            tex = MENU_HELP;
        } else if tex == MENU_HELP {
            tex = MENU_PLAY;
        }
    }
    (tex, action)
}

/// Width and height of the slug game's screen in pixels.
pub const SLUG_SCREEN: i32 = 480;

/// Slime cells needed to win.
pub const SLIME_TO_WIN: usize = 30;

/// Game screen: the menu.
pub const LEVEL_MENU: u16 = 0;

/// Game screen: play.
pub const LEVEL_PLAYING: u16 = 1;

/// Game screen: game over.
pub const LEVEL_LOST: u16 = 2;

/// Game screen: won.
pub const LEVEL_WON: u16 = 3;

/// Direction keys held, and released this frame.
#[derive(PartialEq, Eq, Clone, Copy, Debug, Structural)]
pub struct Keys {
    pub right: bool,
    pub left: bool,
    pub up: bool,
    pub down: bool,
    pub right_released: bool,
    pub left_released: bool,
}

/// The one-axis push back inside `[lo, hi]` of a box of side `SPRITE_SZ` at `v`, by `step`;
/// the far-side test sees the near-side push.
pub open spec fn edge_push(v: int, lo: int, hi: int, step: int) -> int {
    let a = if v < lo { step } else { 0 };
    let b = if v + a + SPRITE_SZ > hi { -step } else { 0 };
    a + b
}

/// The player's push back inside the screen, tested on the position before any move; both
/// sides are tested on that same position.
pub open spec fn player_edge_push(v: int) -> int {
    (if v < 2 { 2int } else { 0int }) + (if v + SPRITE_SZ > SLUG_SCREEN - 2 { -2int } else { 0int })
}

/// The player's move from the keys held.
pub open spec fn input_delta(k: Keys) -> (int, int) {
    (
        (if k.right { 2int } else { 0int }) + (if k.left { -2int } else { 0int }),
        (if k.up { -2int } else { 0int }) + (if k.down { 2int } else { 0int }),
    )
}

/// `-1`, `0` or `1`: the sign of `v`.
pub open spec fn sign(v: int) -> int {
    if v > 0 { 1 } else if v < 0 { -1 } else { 0 }
}

/// `after` has entered, at `frame`, state 0 if `e0`, state 1 if `e1` and state 2 if `e2`,
/// ending with `index` active; nothing else differs from `before`.
#[verifier::opaque]
pub open spec fn entered_states(
    after: &Animation,
    before: &Animation,
    e0: bool,
    e1: bool,
    e2: bool,
    index: int,
    frame: usize,
) -> bool {
    &&& after.wf()
    &&& after.index == index
    &&& after.states@.len() == before.states@.len()
    &&& forall|s: int|
        0 <= s < after.states@.len() ==> {
            &&& (#[trigger] after.states@[s]).frames == before.states@[s].frames
            &&& after.states@[s].repeat == before.states@[s].repeat
            &&& after.states@[s].current_index == before.states@[s].current_index
            &&& after.states@[s].start_time == if (s == 0 && e0) || (s == 1 && e1) || (s == 2 && e2) {
                frame as int
            } else {
                before.states@[s].start_time as int
            }
        }
}

/// The player's animation states entered by the keys: walking right (2), left (1), and the
/// idle state (0) on a straight vertical move or a released side key.
pub open spec fn player_idle(k: Keys) -> bool {
    ((k.up || k.down) && !(k.left || k.right)) || k.right_released || k.left_released
}

/// The player's active animation state after the keys.
pub open spec fn player_anim_index(k: Keys, old_index: int) -> int {
    if player_idle(k) {
        0
    } else if k.left {
        1
    } else if k.right {
        2
    } else {
        old_index
    }
}

/// The player's corner probes in the slug game.
pub open spec fn player_probes(p: Vec2i) -> Corners {
    spec_corners(p, Insets { left: 12, top: 8, right: 8, bottom: 12 })
}

/// Some probe of the player lies in fire.
pub open spec fn in_fire(m: &Tilemap, c: Corners) -> bool {
    let t = corner_tiles(m, c);
    t.0.0 == FIRE || t.1.0 == FIRE || t.2.0 == FIRE || t.3.0 == FIRE
}

/// A sprite that the slug game can move: animated with at least three states, room to move.
pub open spec fn movable(s: &Sprite) -> bool {
    &&& s.animation.wf()
    &&& s.animation.states@.len() >= 3
    &&& roomy(s.position)
    &&& boxes_roomy(s)
}

/// Enters state `s` of the animation at `frame`.
fn enter(anim: &mut Animation, s: usize, frame: usize, Ghost(e0): Ghost<bool>, Ghost(e1): Ghost<bool>, Ghost(e2): Ghost<bool>, Ghost(base): Ghost<Animation>)
    requires
        entered_states(old(anim), &base, e0, e1, e2, old(anim).index as int, frame),
        s < 3,
        base.states@.len() >= 3,
    ensures
        entered_states(final(anim), &base, e0 || s == 0, e1 || s == 1, e2 || s == 2, s as int, frame),
{
    proof {
        reveal(entered_states);
    }
    anim.set_state(s, frame);
}

/// `p1` is `p0` after the player's move on map `m` with `keys`: edge push, wall separation
/// from the probes where it stood, key move; the hit-boxes follow every step.
pub open spec fn player_moved(p0: &Sprite, p1: &Sprite, m: &Tilemap, keys: Keys) -> bool {
    let c = player_probes(p0.position);
    let w = separation(m, c, WALL, 2);
    let k = input_delta(keys);
    let ex = player_edge_push(p0.position.0 as int);
    let ey = player_edge_push(p0.position.1 as int);
    &&& p1.position.0 == p0.position.0 + ex + w.0 + k.0
    &&& p1.position.1 == p0.position.1 + ey + w.1 + k.1
    &&& all_moved(p1.hit_boxes@, p0.hit_boxes@, ex + w.0 + k.0, ey + w.1 + k.1)
    &&& p1.image == p0.image
    &&& p1.exploded == p0.exploded
    &&& p1.is_explodable == p0.is_explodable
    &&& p1.is_obstacle == p0.is_obstacle
}

/// The enemy's position after chasing `target` by one pixel per axis and being pushed back
/// inside the screen.
pub open spec fn enemy_chased(e: Vec2i, target: Vec2i) -> (int, int) {
    let x1 = e.0 + sign(target.0 - e.0);
    let y1 = e.1 + sign(target.1 - e.1);
    (x1 + edge_push(x1, 1, SLUG_SCREEN - 2, 1), y1 + edge_push(y1, 1, SLUG_SCREEN - 2, 1))
}

/// `e1` is `e0` after the enemy's move on map `m` towards `target`: chase, edge push, then
/// separation from walls and from fire, both from the probes where the chase left it; the
/// hit-boxes follow every step.
pub open spec fn enemy_moved(e0: &Sprite, e1: &Sprite, m: &Tilemap, target: Vec2i) -> bool {
    let ch = enemy_chased(e0.position, target);
    let c = spec_corners(Vec2i(ch.0 as i32, ch.1 as i32), Insets { left: 12, top: 8, right: 8, bottom: 12 });
    let w = separation(m, c, WALL, 1);
    let f = separation(m, c, FIRE, 1);
    let x = ch.0 + w.0 + f.0;
    let y = ch.1 + w.1 + f.1;
    &&& e1.position.0 == x
    &&& e1.position.1 == y
    &&& all_moved(e1.hit_boxes@, e0.hit_boxes@, x - e0.position.0, y - e0.position.1)
    &&& e1.image == e0.image
    &&& e1.exploded == e0.exploded
    &&& e1.is_explodable == e0.is_explodable
    &&& e1.is_obstacle == e0.is_obstacle
}

/// The enemy's animation state: walking right (2) or left (1) while it chases sideways, idle (0)
/// when level with its target.
pub open spec fn enemy_anim_index(e: Vec2i, target: Vec2i) -> int {
    if target.0 > e.0 { 2 } else if target.0 < e.0 { 1 } else { 0 }
}

/// The player's push back inside the screen along one axis.
fn player_edge(v: i32) -> (r: i32)
    requires
        -1_000_000_000 <= v <= 1_000_000_000,
    ensures
        r == player_edge_push(v as int),
{
    let mut r: i32 = 0;
    if v < 2 {
        r = r + 2;
    }
    if v + SPRITE_SZ > SLUG_SCREEN - 2 {
        r = r - 2;
    }
    r
}

/// Whether some probe lies in a tile of kind `kind`.
pub fn probes_find(m: &Tilemap, c: Corners, kind: usize) -> (r: bool)
    requires
        m.wf(),
        m.cols() > 0,
        m.rows() > 0,
    ensures
        r == (corner_tiles(m, c).0.0 == kind || corner_tiles(m, c).1.0 == kind || corner_tiles(m, c).2.0
            == kind || corner_tiles(m, c).3.0 == kind),
{
    let tl = m.tile_id_at(c.tl);
    let tr = m.tile_id_at(c.tr);
    let bl = m.tile_id_at(c.bl);
    let br = m.tile_id_at(c.br);
    tl.0 == kind || tr.0 == kind || bl.0 == kind || br.0 == kind
}

/// Moves the player for one frame: back inside the screen (tested where it stood), out of
/// walls by the probes where it stood, then by the keys. Returns whether a probe found fire.
#[verifier::rlimit(40)]
pub fn move_player(p: &mut Sprite, m: &Tilemap, keys: Keys) -> (fire: bool)
    requires
        roomy(old(p).position),
        boxes_roomy(old(p)),
        m.wf(),
        m.cols() > 0,
        m.rows() > 0,
    ensures
        player_moved(old(p), final(p), m, keys),
        final(p).animation == old(p).animation,
        fire == in_fire(m, player_probes(old(p).position)),
{
    let ghost p0 = *p;
    let start = p.position;
    let e = Vec2i(player_edge(start.0), player_edge(start.1));
    proof {
        lemma_bounded_can_move(p0.hit_boxes@, 1_000_000_000, 2, e.0 as int, e.1 as int);
    }
    p.move_by(e);
    let ghost pe = *p;
    let c = corners(start, slug_insets());
    let fire = probes_find(m, c, FIRE);
    proof {
        lemma_moved_bounded(pe.hit_boxes@, p0.hit_boxes@, e.0 as int, e.1 as int, 1_000_000_000, 2);
        lemma_bounded_can_move(pe.hit_boxes@, 1_000_000_002, 4, 0, 0);
    }
    let w = separate(p, m, c, WALL, 2);
    let ghost pw = *p;
    let mut dx: i32 = 0;
    let mut dy: i32 = 0;
    if keys.right {
        dx = dx + 2;
    }
    if keys.left {
        dx = dx - 2;
    }
    if keys.up {
        dy = dy - 2;
    }
    if keys.down {
        dy = dy + 2;
    }
    proof {
        lemma_moved_bounded(pw.hit_boxes@, pe.hit_boxes@, w.0 as int, w.1 as int, 1_000_000_002, 4);
        lemma_bounded_can_move(p0.hit_boxes@, 1_000_000_000, 6, e.0 + w.0, e.1 + w.1);
        lemma_moved_twice(pw.hit_boxes@, pe.hit_boxes@, p0.hit_boxes@, e.0 as int, e.1 as int, w.0 as int, w.1 as int);
        lemma_bounded_can_move(pw.hit_boxes@, 1_000_000_006, 4, dx as int, dy as int);
    }
    p.move_by(Vec2i(dx, dy));
    proof {
        lemma_moved_twice(p.hit_boxes@, pw.hit_boxes@, p0.hit_boxes@, e.0 + w.0, e.1 + w.1, dx as int, dy as int);
    }
    fire
}

/// Enters the player's animation states for the keys: right (2), left (1), then idle (0) on a
/// straight vertical move or a released side key.
pub fn animate_player_keys(anim: &mut Animation, keys: Keys, frame: usize)
    requires
        old(anim).wf(),
        old(anim).states@.len() >= 3,
    ensures
        entered_states(final(anim), old(anim), player_idle(keys), keys.left, keys.right,
            player_anim_index(keys, old(anim).index as int), frame),
{
    let ghost base = *anim;
    let sideways = keys.left || keys.right;
    let ghost straight_up = keys.up && !sideways;
    let ghost straight = (keys.up || keys.down) && !sideways;
    proof {
        reveal(entered_states);
        assert(entered_states(&base, &base, false, false, false, base.index as int, frame));
    }
    if keys.right {
        enter(anim, 2, frame, Ghost(false), Ghost(false), Ghost(false), Ghost(base));
    }
    if keys.left {
        enter(anim, 1, frame, Ghost(false), Ghost(false), Ghost(keys.right), Ghost(base));
    }
    if keys.up && !sideways {
        enter(anim, 0, frame, Ghost(false), Ghost(keys.left), Ghost(keys.right), Ghost(base));
    }
    if keys.down && !sideways {
        enter(anim, 0, frame, Ghost(straight_up), Ghost(keys.left), Ghost(keys.right), Ghost(base));
    }
    if keys.right_released || keys.left_released {
        enter(anim, 0, frame, Ghost(straight), Ghost(keys.left), Ghost(keys.right), Ghost(base));
    }
}

/// The enemy's push back inside the screen along one axis.
fn enemy_edge(v: i32) -> (r: i32)
    requires
        -1_500_000_000 <= v <= 1_500_000_000,
    ensures
        r == edge_push(v as int, 1, SLUG_SCREEN - 2, 1),
{
    let a: i32 = if v < 1 { 1 } else { 0 };
    let b: i32 = if v + a + SPRITE_SZ > SLUG_SCREEN - 2 { -1 } else { 0 };
    a + b
}

/// The enemy's chase: one pixel per axis towards `target`, then back inside the screen; its
/// animation turns to face the way it walks.
fn chase(e: &mut Sprite, target: Vec2i, frame: usize)
    requires
        movable(old(e)),
    ensures
        final(e).position.0 == enemy_chased(old(e).position, target).0,
        final(e).position.1 == enemy_chased(old(e).position, target).1,
        all_moved(
            final(e).hit_boxes@,
            old(e).hit_boxes@,
            final(e).position.0 - old(e).position.0,
            final(e).position.1 - old(e).position.1,
        ),
        boxes_bounded(final(e).hit_boxes@, 1_000_000_002),
        bounded(final(e).position, 1_000_000_002),
        entered_states(
            &final(e).animation,
            &old(e).animation,
            enemy_anim_index(old(e).position, target) == 0,
            enemy_anim_index(old(e).position, target) == 1,
            enemy_anim_index(old(e).position, target) == 2,
            enemy_anim_index(old(e).position, target),
            frame,
        ),
        final(e).image == old(e).image,
        final(e).exploded == old(e).exploded,
        final(e).is_explodable == old(e).is_explodable,
        final(e).is_obstacle == old(e).is_obstacle,
{
    let ghost e0 = *e;
    let ep = e.position;
    let cx: i32 = if target.0 > ep.0 { 1 } else if target.0 < ep.0 { -1 } else { 0 };
    let cy: i32 = if target.1 > ep.1 { 1 } else if target.1 < ep.1 { -1 } else { 0 };
    let ghost base = e.animation;
    proof {
        reveal(entered_states);
        assert(entered_states(&base, &base, false, false, false, base.index as int, frame));
    }
    if cx > 0 {
        enter(&mut e.animation, 2, frame, Ghost(false), Ghost(false), Ghost(false), Ghost(base));
    } else if cx < 0 {
        enter(&mut e.animation, 1, frame, Ghost(false), Ghost(false), Ghost(false), Ghost(base));
    } else {
        enter(&mut e.animation, 0, frame, Ghost(false), Ghost(false), Ghost(false), Ghost(base));
    }
    let ghost anim = e.animation;
    proof {
        lemma_bounded_can_move(e0.hit_boxes@, 1_000_000_000, 1, cx as int, cy as int);
    }
    e.move_by(Vec2i(cx, cy));
    let ghost e1 = *e;
    let ex = enemy_edge(e.position.0);
    let ey = enemy_edge(e.position.1);
    proof {
        lemma_moved_bounded(e1.hit_boxes@, e0.hit_boxes@, cx as int, cy as int, 1_000_000_000, 1);
        lemma_bounded_can_move(e1.hit_boxes@, 1_000_000_001, 1, ex as int, ey as int);
    }
    e.move_by(Vec2i(ex, ey));
    proof {
        lemma_moved_twice(e.hit_boxes@, e1.hit_boxes@, e0.hit_boxes@, cx as int, cy as int, ex as int, ey as int);
        lemma_moved_bounded(e.hit_boxes@, e1.hit_boxes@, ex as int, ey as int, 1_000_000_001, 1);
        assert(e.animation == anim);
    }
}

/// Moves the enemy: the chase (see `chase`), then out of walls and out of fire, both from the
/// probes where the chase left it.
pub fn move_enemy(e: &mut Sprite, m: &Tilemap, target: Vec2i, frame: usize)
    requires
        movable(old(e)),
        m.wf(),
        m.cols() > 0,
        m.rows() > 0,
    ensures
        enemy_moved(old(e), final(e), m, target),
        entered_states(
            &final(e).animation,
            &old(e).animation,
            enemy_anim_index(old(e).position, target) == 0,
            enemy_anim_index(old(e).position, target) == 1,
            enemy_anim_index(old(e).position, target) == 2,
            enemy_anim_index(old(e).position, target),
            frame,
        ),
{
    let ghost e0 = *e;
    chase(e, target, frame);
    let ghost e2 = *e;
    let c = corners(e.position, slug_insets());
    proof {
        lemma_bounded_can_move(e2.hit_boxes@, 1_000_000_002, 2, 0, 0);
    }
    let w = separate(e, m, c, WALL, 1);
    let ghost e3 = *e;
    proof {
        let d2 = (e2.position.0 - e0.position.0, e2.position.1 - e0.position.1);
        lemma_bounded_can_move(e0.hit_boxes@, 1_000_000_000, 4, d2.0, d2.1);
        lemma_bounded_can_move(e2.hit_boxes@, 1_000_000_002, 2, w.0 as int, w.1 as int);
        lemma_moved_twice(e3.hit_boxes@, e2.hit_boxes@, e0.hit_boxes@, d2.0, d2.1, w.0 as int, w.1 as int);
        lemma_moved_bounded(e3.hit_boxes@, e2.hit_boxes@, w.0 as int, w.1 as int, 1_000_000_002, 2);
        lemma_bounded_can_move(e3.hit_boxes@, 1_000_000_004, 2, 0, 0);
    }
    let f = separate(e, m, c, FIRE, 1);
    proof {
        let d3 = (e3.position.0 - e0.position.0, e3.position.1 - e0.position.1);
        lemma_bounded_can_move(e0.hit_boxes@, 1_000_000_000, 6, d3.0, d3.1);
        lemma_bounded_can_move(e3.hit_boxes@, 1_000_000_004, 2, f.0 as int, f.1 as int);
        lemma_moved_twice(e.hit_boxes@, e3.hit_boxes@, e0.hit_boxes@, d3.0, d3.1, f.0 as int, f.1 as int);
    }
}

/// The slug game's state: the player is sprite 0, the enemy sprite 1.
pub struct SlugGame {
    pub sprites: Vec<Sprite>,
    pub tilemap: Tilemap,
    pub covered_tiles: usize,
    pub level: u16,
}

impl SlugGame {
    /// The frame update can run: a player and an enemy that can move and animate, a map with
    /// at least one cell and a slime tile, room in the counter.
    pub open spec fn ready(&self) -> bool {
        &&& self.sprites@.len() >= 2
        &&& movable(&self.sprites@[0])
        &&& movable(&self.sprites@[1])
        &&& self.tilemap.wf()
        &&& self.tilemap.cols() > 0
        &&& self.tilemap.rows() > 0
        &&& SLIME < self.tilemap.spec_tileset().tiles@.len()
        &&& self.covered_tiles <= usize::MAX - 4
    }

    /// One frame of play. The player moves (see `move_player`) and covers the ground its probes
    /// found with slime; the enemy chases where the player stood. Returns whether the player
    /// died this frame, in fire or touching an obstacle; the level becomes lost on death, and
    /// won once more than `SLIME_TO_WIN` cells are slime.
    pub fn update_game(&mut self, keys: Keys, frame: usize) -> (died: bool)
        requires
            old(self).ready(),
        ensures
            ({
                let o = *old(self);
                let f = *final(self);
                let t = o.sprites@[0].position;
                let c = player_probes(t);
                &&& f.sprites@.len() == o.sprites@.len()
                &&& player_moved(&o.sprites@[0], &f.sprites@[0], &o.tilemap, keys)
                &&& entered_states(&f.sprites@[0].animation, &o.sprites@[0].animation, player_idle(keys),
                    keys.left, keys.right, player_anim_index(keys, o.sprites@[0].animation.index as int), frame)
                &&& enemy_moved(&o.sprites@[1], &f.sprites@[1], &f.tilemap, t)
                &&& entered_states(
                    &f.sprites@[1].animation,
                    &o.sprites@[1].animation,
                    enemy_anim_index(o.sprites@[1].position, t) == 0,
                    enemy_anim_index(o.sprites@[1].position, t) == 1,
                    enemy_anim_index(o.sprites@[1].position, t) == 2,
                    enemy_anim_index(o.sprites@[1].position, t),
                    frame,
                )
                &&& forall|i: int| 2 <= i < o.sprites@.len() ==> #[trigger] f.sprites@[i] == o.sprites@[i]
                &&& f.tilemap.wf()
                &&& f.tilemap.cells() == covered_cells(&o.tilemap, c)
                &&& f.tilemap.origin() == o.tilemap.origin()
                &&& f.tilemap.cols() == o.tilemap.cols()
                &&& f.tilemap.rows() == o.tilemap.rows()
                &&& f.tilemap.spec_tileset() == o.tilemap.spec_tileset()
                &&& f.covered_tiles == o.covered_tiles + ground_probes(&o.tilemap, c)
                &&& died == (in_fire(&o.tilemap, c) || exists|k: int|
                    1 <= k < f.sprites@.len() && blocks(&f.sprites@[0], #[trigger] &f.sprites@[k]))
                &&& f.level == if count_kind(f.tilemap.cells(), SLIME) > SLIME_TO_WIN {
                    LEVEL_WON
                } else if died {
                    LEVEL_LOST
                } else {
                    o.level
                }
            }),
    {
        let ghost o = *self;
        let target = self.sprites[0].position;
        let mut player = self.sprites.remove(0);
        let mut enemy = self.sprites.remove(0);
        let ghost p0 = player;
        let ghost e0 = enemy;
        let ghost m0 = self.tilemap;
        let fire = move_player(&mut player, &self.tilemap, keys);
        animate_player_keys(&mut player.animation, keys, frame);
        let c = corners(target, slug_insets());
        let n = cover_tiles(&mut self.tilemap, c);
        self.covered_tiles = self.covered_tiles + n;
        move_enemy(&mut enemy, &self.tilemap, target, frame);
        self.sprites.insert(0, enemy);
        self.sprites.insert(0, player);
        proof {
            assert forall|i: int| 2 <= i < o.sprites@.len() implies #[trigger] self.sprites@[i] == o.sprites@[i] by {}
        }
        let contact = player_contacts(&self.sprites, 1);
        let died = fire || contact;
        if died {
            self.level = LEVEL_LOST;
        }
        if all_slime(&self.tilemap) > SLIME_TO_WIN {
            self.level = LEVEL_WON;
        }
        proof {
            assert(p0 == o.sprites@[0] && e0 == o.sprites@[1] && m0 == o.tilemap);
            assert(self.sprites@[0] == player && self.sprites@[1] == enemy);
            assert(player_moved(&o.sprites@[0], &self.sprites@[0], &o.tilemap, keys));
            assert(enemy_moved(&o.sprites@[1], &self.sprites@[1], &self.tilemap, target));
        }
        died
    }
}

} // verus!
