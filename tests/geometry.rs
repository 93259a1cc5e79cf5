use engine2d::collision::{first_contact, first_contact_from, hit_boxes_touch, laser_contacts, player_contacts, rect_displacement, shot_contacts};
use engine2d::animation::Animation;
use engine2d::sprite::Sprite;
use engine2d::texture::Texture;
use engine2d::types::{AnimationState, Rect, Vec2i};
use std::rc::Rc;

fn r(x: i32, y: i32, w: u16, h: u16) -> Rect {
    Rect { x, y, w, h }
}

fn tex(w: usize, h: usize) -> Rc<Texture> {
    Rc::new(Texture::from_rgba(vec![0; w * h * 4], w, h).unwrap())
}

fn two_state_animation() -> Animation {
    let st = || AnimationState { frames: vec![r(0, 0, 8, 8), r(8, 0, 8, 8)], current_index: 0, start_time: 0, repeat: true };
    Animation::new(vec![st(), st()])
}

fn sprite_at(x: i32, y: i32, boxes: Vec<Rect>, explodable: bool, obstacle: bool) -> Sprite {
    Sprite::new(tex(16, 8), two_state_animation(), Vec2i(x, y), boxes, false, explodable, obstacle)
}

#[test]
fn overlap_is_symmetric() {
    let cases = [
        (r(0, 0, 10, 10), r(5, 5, 10, 10)),
        (r(0, 0, 10, 10), r(20, 0, 5, 5)),
        (r(-5, -5, 3, 3), r(-3, -3, 0, 0)),
        (r(100, 0, 1, 1), r(0, 100, 1, 1)),
    ];
    for (a, b) in cases {
        assert_eq!(rect_displacement(a, b), rect_displacement(b, a));
    }
}

#[test]
fn rect_overlaps_itself() {
    assert!(rect_displacement(r(3, 4, 10, 10), r(3, 4, 10, 10)));
    assert!(rect_displacement(r(-7, 2, 0, 0), r(-7, 2, 0, 0)));
}

#[test]
fn touching_edges_overlap() {
    assert!(rect_displacement(r(0, 0, 10, 10), r(10, 0, 10, 10)));
    assert!(rect_displacement(r(0, 0, 10, 10), r(0, 10, 10, 10)));
    assert!(rect_displacement(r(0, 0, 10, 10), r(10, 10, 10, 10)));
}

#[test]
fn separated_rects_do_not_overlap() {
    assert!(!rect_displacement(r(0, 0, 10, 10), r(11, 0, 10, 10)));
    assert!(!rect_displacement(r(0, 0, 10, 10), r(0, -11, 10, 10)));
}

#[test]
fn overlap_near_integer_limits() {
    assert!(rect_displacement(r(i32::MAX, 0, u16::MAX, 1), r(i32::MAX, 0, 1, 1)));
    assert!(!rect_displacement(r(i32::MIN, 0, 1, 1), r(i32::MAX, 0, 1, 1)));
}

#[test]
fn any_box_pair_counts() {
    assert!(hit_boxes_touch(&vec![r(0, 0, 1, 1), r(50, 50, 2, 2)], &vec![r(51, 51, 1, 1)]));
    assert!(!hit_boxes_touch(&vec![r(0, 0, 1, 1)], &vec![]));
}

#[test]
fn player_blocked_only_by_obstacles() {
    let sprites = vec![
        sprite_at(0, 0, vec![r(0, 0, 10, 10)], false, false),
        sprite_at(5, 5, vec![r(0, 0, 10, 10)], false, false),
        sprite_at(100, 100, vec![r(0, 0, 10, 10)], false, true),
    ];
    assert!(!player_contacts(&sprites, 1));
    let sprites = vec![
        sprite_at(0, 0, vec![r(0, 0, 10, 10)], false, false),
        sprite_at(5, 5, vec![r(0, 0, 10, 10)], false, true),
    ];
    assert!(player_contacts(&sprites, 1));
    assert!(!player_contacts(&sprites, 2));
}

#[test]
fn player_second_box_counts() {
    let sprites = vec![
        sprite_at(0, 0, vec![r(0, 0, 2, 2), r(40, 40, 2, 2)], false, false),
        sprite_at(41, 41, vec![r(0, 0, 3, 3)], false, true),
    ];
    assert!(player_contacts(&sprites, 1));
}

#[test]
fn first_contact_names_lowest_index() {
    let sprites = vec![
        sprite_at(0, 0, vec![r(0, 0, 10, 10)], false, false),
        sprite_at(50, 50, vec![r(0, 0, 1, 1)], false, true),
        sprite_at(2, 2, vec![r(0, 0, 1, 1)], false, true),
        sprite_at(3, 3, vec![r(0, 0, 1, 1)], false, true),
    ];
    assert_eq!(first_contact(&sprites, 0), Some(2));
    assert_eq!(first_contact(&sprites, 1), None);
}

#[test]
fn shots_retire_and_targets_explode() {
    let far = || sprite_at(-500, -500, vec![r(0, 0, 1, 1)], false, false);
    let mut sprites = vec![
        far(),
        sprite_at(10, 10, vec![r(0, 0, 4, 4)], false, false),
        far(),
        sprite_at(200, 10, vec![r(0, 0, 4, 4)], false, false),
        sprite_at(12, 12, vec![r(0, 0, 8, 8)], true, true),
        sprite_at(400, 400, vec![r(0, 0, 8, 8)], true, true),
        sprite_at(201, 11, vec![r(0, 0, 8, 8)], false, true),
    ];
    let (landed, struck) = shot_contacts(&sprites);
    assert_eq!(landed, vec![false, true, false, true, false, false, false]);
    assert_eq!(struck, vec![false, false, false, false, true, false, true]);
    laser_contacts(&mut sprites, 42);
    assert_eq!(sprites[1].position, Vec2i(10, -200));
    assert_eq!(sprites[1].hit_boxes[0], r(-20, -20, 4, 4));
    assert_eq!(sprites[3].position, Vec2i(200, -200));
    assert_eq!(sprites[2].position, Vec2i(-500, -500));
    assert!(sprites[4].exploded);
    assert!(!sprites[4].is_obstacle);
    assert_eq!(sprites[4].animation.index, 1);
    assert_eq!(sprites[4].animation.states[1].start_time, 42);
    assert!(!sprites[5].exploded);
    assert!(sprites[5].is_obstacle);
    assert!(!sprites[6].exploded);
    assert!(sprites[6].is_obstacle);
}

#[test]
fn new_sprite_places_hit_boxes() {
    let s = sprite_at(100, -20, vec![r(12, 16, 12, 16), r(0, 0, 1, 1)], false, true);
    assert_eq!(s.hit_boxes, vec![r(112, -4, 12, 16), r(100, -20, 1, 1)]);
    assert_eq!(s.position, Vec2i(100, -20));
}

#[test]
fn moving_a_sprite_moves_its_boxes() {
    let mut s = sprite_at(10, 10, vec![r(1, 2, 3, 4)], false, false);
    s.move_by(Vec2i(-3, 5));
    assert_eq!(s.position, Vec2i(7, 15));
    assert_eq!(s.hit_boxes, vec![r(8, 17, 3, 4)]);
    engine2d::sprite::shift_hitboxes(Vec2i(1, 1), &mut s);
    assert_eq!(s.position, Vec2i(7, 15));
    assert_eq!(s.hit_boxes, vec![r(9, 18, 3, 4)]);
}

#[test]
fn first_contact_from_start_index() {
    let sprites = vec![
        sprite_at(0, 0, vec![r(0, 0, 10, 10)], false, false),
        sprite_at(1, 1, vec![r(0, 0, 1, 1)], false, true),
        sprite_at(2, 2, vec![r(0, 0, 1, 1)], false, false),
        sprite_at(500, 500, vec![r(0, 0, 1, 1)], false, true),
        sprite_at(900, 900, vec![r(0, 0, 1, 1)], false, true),
        sprite_at(3, 3, vec![r(0, 0, 1, 1)], false, true),
        sprite_at(4, 4, vec![r(0, 0, 1, 1)], false, true),
    ];
    assert_eq!(first_contact_from(&sprites, 0, 4), Some(5));
    assert_eq!(first_contact_from(&sprites, 0, 1), Some(1));
    assert_eq!(first_contact_from(&sprites, 0, 7), None);
    assert_eq!(first_contact_from(&sprites, 5, 0), Some(6));
}
