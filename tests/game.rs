use engine2d::level_maker::make_map;
use engine2d::slug::{
    all_slime, corners, cover_tiles, separate, slug_insets, update_menu, wall_push, Corners, Insets, Keys,
    MenuAction, MenuKeys, SlugGame,
};
use engine2d::slug_maker::{make_core, make_enemy, make_player, reset_tiles, slug_animation};
use engine2d::texture::Texture;
use engine2d::tile::{Tile, TileID, Tilemap, Tileset};
use engine2d::types::{Rect, Vec2i};
use std::rc::Rc;

fn tiles_texture() -> Rc<Texture> {
    Rc::new(Texture::from_rgba(vec![0; 96 * 96 * 4], 96, 96).unwrap())
}

fn map_of(cols: usize, rows: usize, cells: Vec<usize>) -> Tilemap {
    let set = Rc::new(Tileset { tiles: vec![Tile { solid: true }; 4], texture: tiles_texture() });
    Tilemap::new(Vec2i(0, 0), (cols, rows), set, cells)
}

fn no_keys() -> Keys {
    Keys { right: false, left: false, up: false, down: false, right_released: false, left_released: false }
}

#[test]
fn walled_in_sprite_is_pushed_up_with_its_boxes() {
    // A one-tile-wide wall column: every probe of a sprite standing in it finds tile 0.
    let m = map_of(3, 3, vec![1, 0, 1, 1, 0, 1, 1, 0, 1]);
    let mut s = make_player(tiles_texture());
    s.position = Vec2i(48, 48);
    s.hit_boxes = vec![Rect { x: 60, y: 64, w: 12, h: 16 }];
    let c = corners(Vec2i(48, 48), slug_insets());
    let d = separate(&mut s, &m, c, 0, 2);
    assert_eq!(d, Vec2i(0, -2));
    assert_eq!(s.position, Vec2i(48, 46));
    assert_eq!(s.hit_boxes, vec![Rect { x: 60, y: 62, w: 12, h: 16 }]);
}

#[test]
fn axis_priority_pushes() {
    assert_eq!(wall_push(true, true, true, true, 2), Vec2i(0, -2));
    assert_eq!(wall_push(true, false, true, false, 2), Vec2i(4, 0));
    assert_eq!(wall_push(true, false, false, false, 2), Vec2i(0, 2));
    assert_eq!(wall_push(false, true, false, true, 2), Vec2i(-2, 0));
    assert_eq!(wall_push(false, true, false, false, 1), Vec2i(0, 1));
    assert_eq!(wall_push(false, false, true, true, 1), Vec2i(0, -1));
    assert_eq!(wall_push(false, false, false, false, 2), Vec2i(0, 0));
}

#[test]
fn probes_sit_inside_the_box() {
    let c = corners(Vec2i(100, 200), Insets { left: 12, top: 8, right: 8, bottom: 12 });
    assert_eq!(c, Corners { tl: Vec2i(112, 208), tr: Vec2i(140, 208), bl: Vec2i(112, 236), br: Vec2i(140, 236) });
}

#[test]
fn probes_cover_ground_with_slime() {
    let mut m = map_of(2, 2, vec![1, 1, 0, 3]);
    let c = Corners { tl: Vec2i(1, 1), tr: Vec2i(50, 1), bl: Vec2i(2, 2), br: Vec2i(60, 60) };
    assert_eq!(cover_tiles(&mut m, c), 3);
    assert_eq!(m.map(), &vec![TileID(2), TileID(2), TileID(0), TileID(3)]);
    assert_eq!(all_slime(&m), 2);
}

#[test]
fn menu_moves_and_selects() {
    let k = |up, down, enter| MenuKeys { up, down, enter };
    assert_eq!(update_menu(0, k(true, false, false)), (2, MenuAction::Stay));
    assert_eq!(update_menu(2, k(true, false, false)), (1, MenuAction::Stay));
    assert_eq!(update_menu(2, k(false, true, false)), (0, MenuAction::Stay));
    assert_eq!(update_menu(0, k(false, false, true)), (0, MenuAction::NewGame));
    assert_eq!(update_menu(0, k(false, true, true)), (1, MenuAction::LoadGame));
    assert_eq!(update_menu(2, k(false, false, true)), (3, MenuAction::Stay));
    assert_eq!(update_menu(3, k(true, true, false)), (3, MenuAction::Stay));
    assert_eq!(update_menu(3, k(false, false, true)), (0, MenuAction::Stay));
}

#[test]
fn starting_level() {
    let m = reset_tiles(tiles_texture());
    assert_eq!(m.size(), (10, 10));
    assert_eq!(m.map().len(), 100);
    assert_eq!(m.map()[6], TileID(0));
    assert_eq!(m.map()[15], TileID(3));
    assert_eq!(m.map()[31], TileID(0));
    assert_eq!(m.map()[0], TileID(1));
    assert_eq!(all_slime(&m), 0);
    let core = make_core(tiles_texture(), tiles_texture());
    assert_eq!(core.len(), 2);
    assert_eq!(core[0].position, Vec2i(10, 50));
    assert_eq!(core[0].hit_boxes, vec![Rect { x: 22, y: 66, w: 12, h: 16 }]);
    assert!(!core[0].is_obstacle);
    assert_eq!(core[1].position, Vec2i(100, 160));
    assert!(core[1].is_obstacle);
    let e = make_enemy(tiles_texture());
    assert_eq!(e.hit_boxes, vec![Rect { x: 112, y: 176, w: 12, h: 16 }]);
    let a = slug_animation();
    assert_eq!(a.states.len(), 3);
    assert_eq!(a.states[0].frames.len(), 4);
    assert_eq!(a.states[2].frames[0], Rect { x: 0, y: 48, w: 48, h: 48 });
}

fn game() -> SlugGame {
    SlugGame {
        sprites: make_core(tiles_texture(), tiles_texture()),
        tilemap: reset_tiles(tiles_texture()),
        covered_tiles: 0,
        level: 1,
    }
}

#[test]
fn a_frame_of_play_moves_and_slimes() {
    let mut g = game();
    let keys = Keys { right: true, ..no_keys() };
    let died = g.update_game(keys, 7);
    assert!(!died);
    assert_eq!(g.level, 1);
    // The player stood at (10, 50): probes (22, 58), (52, 58), (22, 86), (52, 86) are all ground
    // in cells 10, 11, 10 and 11.
    assert_eq!(g.sprites[0].position, Vec2i(12, 50));
    assert_eq!(g.sprites[0].hit_boxes, vec![Rect { x: 24, y: 66, w: 12, h: 16 }]);
    assert_eq!(g.sprites[0].animation.index, 2);
    assert_eq!(g.sprites[0].animation.states[2].start_time, 7);
    assert_eq!(g.covered_tiles, 4);
    assert_eq!(all_slime(&g.tilemap), 2);
    assert_eq!(g.tilemap.map()[10], TileID(2));
    assert_eq!(g.tilemap.map()[11], TileID(2));
    // The enemy chased up and to the left.
    assert_eq!(g.sprites[1].position, Vec2i(99, 159));
    assert_eq!(g.sprites[1].hit_boxes, vec![Rect { x: 111, y: 175, w: 12, h: 16 }]);
    assert_eq!(g.sprites[1].animation.index, 1);
}

#[test]
fn touching_the_enemy_loses() {
    let mut g = game();
    g.sprites[1].move_by(Vec2i(-90, -110));
    let died = g.update_game(no_keys(), 3);
    assert!(died);
    assert_eq!(g.level, 2);
}

#[test]
fn fire_loses() {
    let mut g = game();
    // Cell 15 (fire) spans x 240..288, y 48..96.
    let d = Vec2i(240 - 10, 48 - 50);
    g.sprites[0].move_by(d);
    let died = g.update_game(no_keys(), 3);
    assert!(died);
    assert_eq!(g.level, 2);
}

#[test]
fn enough_slime_wins() {
    let mut g = game();
    for i in 0..40 {
        if g.tilemap.map()[i] == TileID(1) {
            g.tilemap.set_tile(i, TileID(2));
        }
    }
    g.sprites[1].move_by(Vec2i(300, 300));
    let died = g.update_game(no_keys(), 0);
    assert!(!died);
    assert_eq!(g.level, 3);
}

#[test]
fn random_map_kinds_by_row() {
    for _ in 0..5 {
        let m = make_map();
        assert_eq!(m.len(), 384);
        assert!(m[..256].iter().all(|t| *t < 4));
        assert!(m[256..].iter().all(|t| (4..8).contains(t)));
    }
}

#[test]
fn edge_push_moves_hit_boxes_too() {
    let mut g = game();
    // Put the player at the left and top edges, clear of the enemy.
    g.sprites[0].move_by(Vec2i(-10, -50));
    assert_eq!(g.sprites[0].position, Vec2i(0, 0));
    let before = g.sprites[0].hit_boxes[0];
    g.sprites[1].move_by(Vec2i(300, 300));
    g.update_game(no_keys(), 1);
    let p = g.sprites[0].position;
    let b = g.sprites[0].hit_boxes[0];
    assert_eq!(p, Vec2i(2, 2));
    assert_eq!((b.x - p.0, b.y - p.1), (before.x, before.y));
}
