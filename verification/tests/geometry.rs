use asteroid_field::objects::{Rect, SpaceObject};
use asteroid_field::player::{InputEvent, Player};

#[test]
fn rect_accessors() {
    let r = Rect { offset: (2, 3), bounds: (10, 5) };
    assert_eq!(r.top(), 3);
    assert_eq!(r.bottom(), 8);
    assert_eq!(r.left(), 2);
    assert_eq!(r.right(), 12);
    assert_eq!(r.width(), 10);
    assert_eq!(r.height(), 5);
}

#[test]
fn rect_contains_half_open() {
    let r = Rect { offset: (0, 0), bounds: (4, 4) };
    assert!(r.contains((0, 0)));
    assert!(r.contains((3, 3)));
    assert!(!r.contains((4, 0)));
    assert!(!r.contains((0, 4)));
    assert!(!r.contains((4, 4)));
    assert!(!r.contains((-1, 0)));
    let empty = Rect { offset: (5, 5), bounds: (0, 0) };
    assert!(!empty.contains((5, 5)));
}

#[test]
fn space_object_new_and_get_pos() {
    let o = SpaceObject::new(3, 4);
    assert_eq!(o.get_pos(), (3, 4));
}

#[test]
fn space_object_advances_two_rows() {
    let mut o = SpaceObject::new(3, 4);
    o.update();
    o.update();
    assert_eq!(o.get_pos(), (3, 6));
}

#[test]
fn player_default_state() {
    let p = Player::default();
    assert_eq!(p.pos, (10, 10));
    assert_eq!(p.energy, 100);
    assert_eq!(p.disp_char, 'o');
    assert_eq!(p.bounds.offset, (9, 10));
    assert_eq!(p.bounds.bounds, (3, 2));
}

#[test]
fn player_up_stops_at_top() {
    let area = Rect { offset: (0, 0), bounds: (78, 16) };
    let mut p = Player::default();
    p.pos = (10, 2);
    for _ in 0..5 {
        p.parse_input(InputEvent::Up, &area);
        assert!(p.pos.1 >= 0);
    }
    assert_eq!(p.pos, (10, 0));
    p.parse_input(InputEvent::Up, &area);
    assert_eq!(p.pos, (10, 0));
}

#[test]
fn player_right_stops_before_right_edge() {
    let area = Rect { offset: (0, 0), bounds: (78, 16) };
    let mut p = Player::default();
    p.pos = (73, 10);
    for _ in 0..10 {
        p.parse_input(InputEvent::Right, &area);
        assert!(p.pos.0 <= 76);
    }
    assert_eq!(p.pos, (76, 10));
}

#[test]
fn player_down_allows_one_row_below_bottom() {
    let area = Rect { offset: (0, 0), bounds: (78, 16) };
    let mut p = Player::default();
    p.pos = (10, 15);
    p.parse_input(InputEvent::Down, &area);
    assert_eq!(p.pos, (10, 16));
    p.parse_input(InputEvent::Down, &area);
    assert_eq!(p.pos, (10, 17));
    p.parse_input(InputEvent::Down, &area);
    assert_eq!(p.pos, (10, 17));
}

#[test]
fn player_left_keeps_margin() {
    let area = Rect { offset: (0, 0), bounds: (78, 16) };
    let mut p = Player::default();
    p.pos = (4, 10);
    for _ in 0..5 {
        p.parse_input(InputEvent::Left, &area);
        assert!(p.pos.0 >= 1);
    }
    assert_eq!(p.pos, (1, 10));
}

#[test]
fn player_ignores_other_inputs() {
    let area = Rect { offset: (0, 0), bounds: (78, 16) };
    let mut p = Player::default();
    p.parse_input(InputEvent::Skip, &area);
    p.parse_input(InputEvent::Quit, &area);
    p.parse_input(InputEvent::Idle, &area);
    assert_eq!(p.pos, (10, 10));
    assert_eq!(p.energy, 100);
}
