use engine2d::animation::{Animation, StartAnim, FRAME_PERIOD};
use engine2d::save::{load_cells, push_decimal, save_cells, LoadError};
use engine2d::texture::Texture;
use engine2d::tile::{Tile, TileID, Tilemap, Tileset};
use engine2d::types::{AnimationState, Rect, Vec2i};
use std::rc::Rc;

fn frames(n: i32) -> Vec<Rect> {
    (0..n).map(|i| Rect { x: i * 8, y: 0, w: 8, h: 8 }).collect()
}

fn four_tiles() -> Rc<Tileset> {
    let texture = Rc::new(Texture::from_rgba(vec![0; 96 * 96 * 4], 96, 96).unwrap());
    Rc::new(Tileset { tiles: vec![Tile { solid: true }; 4], texture })
}

#[test]
fn repeating_state_advances_every_period_and_wraps() {
    let walk = AnimationState { frames: frames(4), current_index: 0, start_time: 99, repeat: true };
    let idle = AnimationState { frames: frames(1), current_index: 0, start_time: 0, repeat: true };
    let mut a = Animation::new(vec![idle, walk]);
    a.set_state(1, 0);
    assert_eq!(FRAME_PERIOD, 6);
    for f in 0..6 {
        a.animate(f);
        assert_eq!(a.states[1].current_index, 0, "frame {f}");
    }
    a.animate(6);
    assert_eq!(a.states[1].current_index, 1);
    for f in 7..=24 {
        a.animate(f);
    }
    assert_eq!(a.states[1].current_index, 0);
    assert_eq!(a.states[1].start_time, 24);
    assert_eq!(a.states[0].start_time, 0);
}

#[test]
fn one_shot_state_freezes_on_last_frame() {
    let boom = AnimationState { frames: frames(2), current_index: 0, start_time: 0, repeat: false };
    let mut a = Animation::new(vec![boom]);
    a.set_state(0, 10);
    for f in 10..16 {
        a.animate(f);
        assert_eq!(a.states[0].current_index, 0);
    }
    for f in 16..200 {
        a.animate(f);
        assert_eq!(a.states[0].current_index, 1, "frame {f}");
    }
}

#[test]
fn entering_a_state_keeps_its_frame_offset() {
    let s0 = AnimationState { frames: frames(3), current_index: 2, start_time: 5, repeat: true };
    let s1 = AnimationState { frames: frames(3), current_index: 1, start_time: 5, repeat: true };
    let mut a = Animation::new(vec![s0, s1]);
    assert_eq!(a.index, 0);
    a.set_state(1, 40);
    assert_eq!(a.index, 1);
    assert_eq!(a.states[1].start_time, 40);
    assert_eq!(a.states[1].current_index, 1);
    assert_eq!(a.states[0].start_time, 5);
    a.animate(45);
    assert_eq!(a.states[1].current_index, 1);
    a.animate(46);
    assert_eq!(a.states[1].current_index, 2);
    assert_eq!(a.states[0].current_index, 2);
}

fn grid(cols: usize, rows: usize, origin: Vec2i) -> Tilemap {
    let cells: Vec<usize> = (0..cols * rows).map(|i| i % 4).collect();
    Tilemap::new(origin, (cols, rows), four_tiles(), cells)
}

#[test]
fn tile_index_inverts_to_row_and_col() {
    let m = grid(5, 3, Vec2i(10, -20));
    for row in 0..3i32 {
        for col in 0..5i32 {
            let expect = (row * 5 + col) as usize;
            let corner = Vec2i(10 + col * 48, -20 + row * 48);
            let inside = Vec2i(10 + col * 48 + 20, -20 + row * 48 + 31);
            let edge = Vec2i(10 + col * 48 + 47, -20 + row * 48 + 47);
            assert_eq!(m.tile_index_at(corner), expect);
            assert_eq!(m.tile_index_at(inside), expect);
            assert_eq!(m.tile_index_at(edge), expect);
        }
    }
}

#[test]
fn off_grid_points_clamp_to_nearest_cell() {
    let m = grid(5, 3, Vec2i(0, 0));
    assert_eq!(m.tile_index_at(Vec2i(-1, -1)), 0);
    assert_eq!(m.tile_index_at(Vec2i(-1000, 60)), 5);
    assert_eq!(m.tile_index_at(Vec2i(240, 0)), 4);
    assert_eq!(m.tile_index_at(Vec2i(i32::MAX, i32::MAX)), 14);
    assert_eq!(m.tile_index_at(Vec2i(i32::MIN, i32::MAX)), 10);
    assert_eq!(m.tile_id_at(Vec2i(100, 100)), TileID((2 * 5 + 2) % 4));
}

#[test]
fn set_tile_changes_one_cell() {
    let mut m = grid(2, 2, Vec2i(0, 0));
    m.set_tile(3, TileID(0));
    assert_eq!(m.map(), &vec![TileID(0), TileID(1), TileID(2), TileID(0)]);
    assert_eq!(m.size(), (2, 2));
    assert_eq!(m.origin_position(), Vec2i(0, 0));
}

#[test]
fn tileset_frames_follow_rows() {
    let set = four_tiles();
    assert_eq!(set.get_rect(TileID(0)), Rect { x: 0, y: 0, w: 48, h: 48 });
    assert_eq!(set.get_rect(TileID(1)), Rect { x: 48, y: 0, w: 48, h: 48 });
    assert_eq!(set.get_rect(TileID(3)), Rect { x: 48, y: 48, w: 48, h: 48 });
}

#[test]
fn save_text_format() {
    assert_eq!(save_cells(&vec![1, 0, 13, 250]), b" 1 0 13 250 ".to_vec());
    assert_eq!(save_cells(&vec![]), b" ".to_vec());
    let mut out = Vec::new();
    push_decimal(&mut out, 0);
    push_decimal(&mut out, 1907);
    assert_eq!(out, b"01907".to_vec());
}

#[test]
fn saved_cells_load_back() {
    let cells: Vec<usize> = vec![3, 1, 1, 0, 2, 3, 2, 1, 0, 0, 1, 2, 3, 3, 2, 1, 0, 1, 2, 3];
    let text = save_cells(&cells);
    assert_eq!(load_cells(&text, 4), Ok(cells.clone()));
    let big: Vec<usize> = vec![usize::MAX - 1, 0, 123456789];
    assert_eq!(load_cells(&save_cells(&big), usize::MAX), Ok(big));
}

#[test]
fn tilemap_save_load_round_trip() {
    let original = grid(5, 4, Vec2i(0, 0));
    let text = original.save();
    let mut other = Tilemap::new(Vec2i(0, 0), (5, 4), four_tiles(), vec![0; 20]);
    assert_eq!(other.load(&text), Ok(()));
    assert_eq!(other.map(), original.map());
}

#[test]
fn load_accepts_any_whitespace() {
    assert_eq!(load_cells(&b"1\t2\n\n3\r\n 0".to_vec(), 4), Ok(vec![1, 2, 3, 0]));
    assert_eq!(load_cells(&b"".to_vec(), 4), Ok(vec![]));
    assert_eq!(load_cells(&b"007".to_vec(), 8), Ok(vec![7]));
}

#[test]
fn load_rejects_bad_bytes() {
    assert_eq!(load_cells(&b"1 2 x".to_vec(), 4), Err(LoadError::Malformed));
    assert_eq!(load_cells(&b"-1".to_vec(), 4), Err(LoadError::Malformed));
    assert_eq!(load_cells(&b"9 x".to_vec(), 4), Err(LoadError::Malformed));
}

#[test]
fn load_rejects_unknown_tiles() {
    assert_eq!(load_cells(&b"1 4".to_vec(), 4), Err(LoadError::UnknownTile));
    assert_eq!(load_cells(&b"99999999999999999999999999999 0".to_vec(), 4), Err(LoadError::UnknownTile));
}

#[test]
fn failed_load_leaves_map_unchanged() {
    let mut m = grid(2, 2, Vec2i(0, 0));
    let before = m.map().clone();
    assert_eq!(m.load(&b" 1 2 3 ".to_vec()), Err(LoadError::WrongCount));
    assert_eq!(m.load(&b" 1 2 3 0 1 ".to_vec()), Err(LoadError::WrongCount));
    assert_eq!(m.load(&b" 1 2 3 7 ".to_vec()), Err(LoadError::UnknownTile));
    assert_eq!(m.load(&b" 1 2 3 a ".to_vec()), Err(LoadError::Malformed));
    assert_eq!(m.map(), &before);
    assert_eq!(m.load(&b"3 3 3 3".to_vec()), Ok(()));
    assert_eq!(m.map(), &vec![TileID(3); 4]);
}
