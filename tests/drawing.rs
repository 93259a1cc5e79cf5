use engine2d::animation::Animation;
use engine2d::screen::Screen;
use engine2d::sprite::{DrawSpriteExt, Sprite};
use engine2d::texture::Texture;
use engine2d::tile::{Tile, Tilemap, Tileset};
use engine2d::types::{AnimationState, Rect, Rgba, Vec2i};
use std::rc::Rc;

fn solid(w: usize, h: usize, px: [u8; 4]) -> Texture {
    let mut b = Vec::new();
    for _ in 0..w * h {
        b.extend_from_slice(&px);
    }
    Texture::from_rgba(b, w, h).unwrap()
}

fn pixel(s: &Screen, w: usize, x: usize, y: usize) -> [u8; 4] {
    let b = s.framebuffer();
    let i = (y * w + x) * 4;
    [b[i], b[i + 1], b[i + 2], b[i + 3]]
}

#[test]
fn opaque_red_blit_on_black() {
    let mut screen = Screen::wrap(vec![7; 16 * 16 * 4], 16, 16, 4, Vec2i(0, 0));
    screen.clear(Rgba(0, 0, 0, 255));
    let red = solid(10, 10, [255, 0, 0, 255]);
    screen.bitblt(&red, Rect { x: 0, y: 0, w: 10, h: 10 }, Vec2i(0, 0));
    for y in 0..16 {
        for x in 0..16 {
            let expected = if x < 10 && y < 10 { [255, 0, 0, 255] } else { [0, 0, 0, 255] };
            assert_eq!(pixel(&screen, 16, x, y), expected, "pixel {x},{y}");
        }
    }
}

#[test]
fn blit_is_clipped_to_screen() {
    let mut screen = Screen::wrap(vec![9; 16 * 16 * 4], 16, 16, 4, Vec2i(0, 0));
    let src = solid(20, 20, [1, 2, 3, 255]);
    screen.bitblt(&src, Rect { x: 0, y: 0, w: 20, h: 20 }, Vec2i(-10, -10));
    let fb = screen.into_framebuffer();
    assert_eq!(fb.len(), 16 * 16 * 4);
    for y in 0..16 {
        for x in 0..16 {
            let i = (y * 16 + x) * 4;
            let px = [fb[i], fb[i + 1], fb[i + 2], fb[i + 3]];
            let expected = if x < 10 && y < 10 { [1, 2, 3, 255] } else { [9, 9, 9, 9] };
            assert_eq!(px, expected, "pixel {x},{y}");
        }
    }
}

#[test]
fn blit_composites_premultiplied_over() {
    let mut screen = Screen::wrap(vec![0; 4 * 4 * 4], 4, 4, 4, Vec2i(0, 0));
    screen.clear(Rgba(200, 200, 200, 255));
    let src = solid(1, 1, [100, 0, 0, 128]);
    screen.bitblt(&src, Rect { x: 0, y: 0, w: 1, h: 1 }, Vec2i(2, 1));
    assert_eq!(pixel(&screen, 4, 2, 1), [200, 100, 100, 255]);
    assert_eq!(pixel(&screen, 4, 1, 1), [200, 200, 200, 255]);
}

#[test]
fn blit_alpha_accumulates_and_color_saturates() {
    let mut screen = Screen::wrap(vec![0; 4], 1, 1, 4, Vec2i(0, 0));
    screen.clear(Rgba(250, 10, 0, 100));
    let src = solid(1, 1, [200, 0, 0, 50]);
    screen.bitblt(&src, Rect { x: 0, y: 0, w: 1, h: 1 }, Vec2i(0, 0));
    // 10 * 205 / 255 = 8.04 -> 8; 100 * 205 / 255 = 80.39 -> 80; red saturates.
    assert_eq!(pixel(&screen, 1, 0, 0), [255, 8, 0, 130]);
}

#[test]
fn transparent_blit_changes_nothing() {
    let mut screen = Screen::wrap(vec![0; 2 * 2 * 4], 2, 2, 4, Vec2i(0, 0));
    screen.clear(Rgba(1, 2, 3, 4));
    let src = solid(2, 2, [0, 0, 0, 0]);
    screen.bitblt(&src, Rect { x: 0, y: 0, w: 2, h: 2 }, Vec2i(0, 0));
    assert_eq!(pixel(&screen, 2, 1, 1), [1, 2, 3, 4]);
}

#[test]
fn blit_uses_scroll_and_source_offset() {
    let mut screen = Screen::wrap(vec![0; 8 * 8 * 4], 8, 8, 4, Vec2i(100, 50));
    let mut bytes = vec![0u8; 4 * 4 * 4];
    let i = (2 * 4 + 3) * 4;
    bytes[i..i + 4].copy_from_slice(&[9, 8, 7, 255]);
    let src = Texture::from_rgba(bytes, 4, 4).unwrap();
    screen.bitblt(&src, Rect { x: 3, y: 2, w: 1, h: 1 }, Vec2i(105, 56));
    assert_eq!(pixel(&screen, 8, 5, 6), [9, 8, 7, 255]);
    let mut touched = 0;
    for b in screen.framebuffer() {
        if *b != 0 {
            touched += 1;
        }
    }
    assert_eq!(touched, 4);
}

#[test]
fn offscreen_blit_is_a_no_op() {
    let mut screen = Screen::wrap(vec![5; 8 * 8 * 4], 8, 8, 4, Vec2i(0, 0));
    let src = solid(4, 4, [255, 255, 255, 255]);
    for to in [Vec2i(8, 0), Vec2i(0, 8), Vec2i(-4, 0), Vec2i(0, -4), Vec2i(-100, 300)] {
        screen.bitblt(&src, Rect { x: 0, y: 0, w: 4, h: 4 }, to);
    }
    assert!(screen.framebuffer().iter().all(|b| *b == 5));
}

#[test]
fn clear_stamps_every_pixel() {
    let mut screen = Screen::wrap(vec![0; 3 * 2 * 4], 3, 2, 4, Vec2i(0, 0));
    screen.clear(Rgba(80, 80, 80, 255));
    assert_eq!(screen.framebuffer().len(), 24);
    for px in screen.framebuffer().chunks(4) {
        assert_eq!(px, &[80, 80, 80, 255]);
    }
}

#[test]
fn bounds_are_the_viewport() {
    let screen = Screen::wrap(vec![0; 480 * 240 * 4], 480, 240, 4, Vec2i(-3, 9));
    assert_eq!(screen.bounds(), Rect { x: -3, y: 9, w: 480, h: 240 });
    assert_eq!(screen.position(), Vec2i(-3, 9));
}

#[test]
fn texture_needs_exact_buffer() {
    assert!(Texture::from_rgba(vec![0; 15], 2, 2).is_none());
    assert!(Texture::from_rgba(vec![0; 17], 2, 2).is_none());
    assert!(Texture::from_rgba(vec![], usize::MAX, 2).is_none());
    let t = Texture::from_rgba(vec![0; 16], 2, 2).unwrap();
    assert_eq!(t.size(), (2, 2));
    assert_eq!(t.pitch(), 8);
    assert_eq!(t.depth(), 4);
    assert_eq!(t.buffer().len(), 16);
}

#[test]
fn sprite_draws_its_current_frame() {
    let mut bytes = vec![0u8; 2 * 1 * 4];
    bytes[4..8].copy_from_slice(&[0, 0, 200, 255]);
    let image = Rc::new(Texture::from_rgba(bytes, 2, 1).unwrap());
    let state = AnimationState {
        frames: vec![Rect { x: 0, y: 0, w: 1, h: 1 }, Rect { x: 1, y: 0, w: 1, h: 1 }],
        current_index: 1,
        start_time: 0,
        repeat: true,
    };
    let s = Sprite::new(image, Animation::new(vec![state]), Vec2i(2, 3), vec![], false, false, false);
    let mut screen = Screen::wrap(vec![0; 4 * 4 * 4], 4, 4, 4, Vec2i(0, 0));
    screen.draw_sprite(&s);
    assert_eq!(pixel(&screen, 4, 2, 3), [0, 0, 200, 255]);
}

#[test]
fn tilemap_draws_each_cell_from_its_tile() {
    // Two tiles side by side: tile 0 opaque green, tile 1 opaque blue.
    let mut bytes = Vec::new();
    for _y in 0..48 {
        for x in 0..96 {
            if x < 48 {
                bytes.extend_from_slice(&[0, 255, 0, 255]);
            } else {
                bytes.extend_from_slice(&[0, 0, 255, 255]);
            }
        }
    }
    let texture = Rc::new(Texture::from_rgba(bytes, 96, 48).unwrap());
    let set = Rc::new(Tileset { tiles: vec![Tile { solid: true }, Tile { solid: false }], texture });
    let map = Tilemap::new(Vec2i(0, 0), (2, 1), set, vec![1, 0]);
    let mut screen = Screen::wrap(vec![0; 100 * 50 * 4], 100, 50, 4, Vec2i(0, 0));
    map.draw(&mut screen);
    assert_eq!(pixel(&screen, 100, 0, 0), [0, 0, 255, 255]);
    assert_eq!(pixel(&screen, 100, 47, 47), [0, 0, 255, 255]);
    assert_eq!(pixel(&screen, 100, 48, 0), [0, 255, 0, 255]);
    assert_eq!(pixel(&screen, 100, 95, 47), [0, 255, 0, 255]);
    assert_eq!(pixel(&screen, 100, 96, 0), [0, 0, 0, 0]);
    assert_eq!(pixel(&screen, 100, 0, 48), [0, 0, 0, 0]);
}

#[test]
fn decoded_pixels_become_premultiplied() {
    let straight = vec![255, 128, 0, 128, 10, 20, 30, 0, 200, 100, 50, 255, 1, 2];
    let pre = engine2d::texture::premultiply(straight);
    assert_eq!(pre, vec![128, 64, 0, 128, 0, 0, 0, 0, 200, 100, 50, 255, 1, 2]);
}
