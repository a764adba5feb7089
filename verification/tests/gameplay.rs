use asteroid_field::game::{
    energy_bar_color, game_area_for, intro_stars_due, screen_area, GameState, StoryState,
};
use asteroid_field::objects::{ObjectField, Rect, SpaceObject};
use asteroid_field::player::InputEvent;

#[test]
fn field_update_spawns_on_top_edge() {
    let bounds = Rect { offset: (0, 0), bounds: (10, 5) };
    let set = vec![SpaceObject::new(1, 1), SpaceObject::new(2, 2)];
    let mut field = ObjectField::new(bounds, set);
    field.update();
    assert_eq!(field.object_set.len(), 3);
    assert_eq!(field.object_set[0].get_pos(), (1, 2));
    assert_eq!(field.object_set[1].get_pos(), (2, 3));
    let spawned = field.object_set[2].get_pos();
    assert_eq!(spawned.1, 0);
    assert!(0 <= spawned.0 && spawned.0 < 10);
}

#[test]
fn field_update_retires_at_and_past_bottom() {
    let bounds = Rect { offset: (0, 0), bounds: (10, 5) };
    let set = vec![
        SpaceObject::new(0, 4),
        SpaceObject::new(1, 5),
        SpaceObject::new(2, 6),
        SpaceObject::new(3, 3),
    ];
    let mut field = ObjectField::new(bounds, set);
    field.update();
    assert_eq!(field.object_set.len(), 3);
    assert_eq!(field.object_set[0].get_pos(), (0, 5));
    assert_eq!(field.object_set[1].get_pos(), (3, 4));
    assert_eq!(field.object_set[2].get_pos().1, 0);
    for o in field.object_set.iter() {
        assert!(o.get_pos().1 <= 5);
    }
}

#[test]
fn field_update_on_offset_field() {
    let bounds = Rect { offset: (0, 2), bounds: (10, 5) };
    let mut field = ObjectField::new(bounds, Vec::new());
    field.update();
    assert_eq!(field.object_set.len(), 1);
    assert_eq!(field.object_set[0].get_pos().1, 2);
}

#[test]
fn field_clear_empties() {
    let bounds = Rect { offset: (0, 0), bounds: (10, 5) };
    let mut field = ObjectField::new(bounds, Vec::new());
    field.update();
    field.update();
    assert!(!field.get_data().is_empty());
    field.clear();
    assert!(field.get_data().is_empty());
}

#[test]
fn field_random_column_in_range() {
    let bounds = Rect { offset: (0, 0), bounds: (5, 5) };
    let mut field = ObjectField::new(bounds, Vec::new());
    for _ in 0..20 {
        field.clear();
        field.update();
        let p = field.object_set[0].get_pos();
        assert!(0 <= p.0 && p.0 < 5);
        assert_eq!(p.1, 0);
    }
}

#[test]
fn collision_removes_hazard_and_costs_energy() {
    let bounds = Rect { offset: (0, 0), bounds: (78, 16) };
    let set = vec![SpaceObject::new(10, 10), SpaceObject::new(20, 12)];
    let mut field = ObjectField::new(bounds, set);
    let player_bounds = Rect { offset: (9, 10), bounds: (3, 2) };
    assert!(player_bounds.contains((10, 10)));
    let mut energy = 100;
    field.remove_hits(&player_bounds, &mut energy);
    assert_eq!(energy, 90);
    assert_eq!(field.object_set.len(), 1);
    assert_eq!(field.object_set[0].get_pos(), (20, 12));
}

#[test]
fn game_over_and_replay() {
    let area = Rect { offset: (0, 0), bounds: (78, 16) };
    let mut g = GameState::new(area);
    for _ in 0..10 {
        g.asteroids.object_set.push(SpaceObject::new(10, 10));
    }
    g.play_tick(InputEvent::Idle, &area);
    assert_eq!(g.player.energy, 0);
    assert!(g.game_over);
    g.reset();
    assert_eq!(g.tick, 0);
    assert!(!g.game_over);
    assert_eq!(g.player.energy, 100);
    assert_eq!(g.player.pos, (10, 10));
    assert!(g.stars.get_data().is_empty());
    assert!(g.asteroids.get_data().is_empty());
}

#[test]
fn play_tick_moves_player_and_advances_tick() {
    let area = Rect { offset: (0, 0), bounds: (78, 16) };
    let mut g = GameState::new(area);
    g.play_tick(InputEvent::Right, &area);
    assert_eq!(g.tick, 1);
    assert_eq!(g.player.pos, (11, 10));
    assert_eq!(g.player.bounds.offset, (10, 10));
    assert_eq!(g.player.bounds.bounds, (3, 2));
    assert_eq!(g.player.energy, 100);
    assert!(!g.game_over);
}

#[test]
fn stars_scroll_on_their_cadence() {
    let area = Rect { offset: (0, 0), bounds: (78, 16) };
    let mut g = GameState::new(area);
    g.play_tick(InputEvent::Idle, &area);
    assert_eq!(g.stars.get_data().len(), 1);
    g.play_tick(InputEvent::Idle, &area);
    assert_eq!(g.stars.get_data().len(), 1);
}

#[test]
fn asteroids_wait_for_grace_period() {
    let area = Rect { offset: (0, 0), bounds: (78, 16) };
    let mut g = GameState::new(area);
    g.tick = 100;
    g.play_tick(InputEvent::Idle, &area);
    assert!(g.asteroids.get_data().is_empty());
    g.tick = 120;
    g.play_tick(InputEvent::Idle, &area);
    assert_eq!(g.asteroids.get_data().len(), 1);
    assert_eq!(g.asteroids.get_data()[0].get_pos().1, 0);
}

#[test]
fn energy_bar_color_thresholds() {
    assert_eq!(energy_bar_color(0), 4);
    assert_eq!(energy_bar_color(25), 4);
    assert_eq!(energy_bar_color(26), 3);
    assert_eq!(energy_bar_color(50), 3);
    assert_eq!(energy_bar_color(51), 2);
    assert_eq!(energy_bar_color(100), 2);
    assert_eq!(energy_bar_color(101), 5);
}

#[test]
fn screen_and_game_area_layout() {
    let screen = screen_area();
    assert_eq!(screen.offset, (0, 0));
    assert_eq!(screen.bounds, (80, 24));
    let game = game_area_for(screen);
    assert_eq!(game.offset, (0, 0));
    assert_eq!(game.bounds, (78, 16));
}

#[test]
fn intro_star_cadence() {
    assert!(intro_stars_due(0));
    assert!(!intro_stars_due(49));
    assert!(intro_stars_due(50));
    assert!(!intro_stars_due(51));
}

#[test]
fn story_progression() {
    let mut s = StoryState::new();
    assert!(s.reveal_step(3));
    assert!(s.reveal_step(3));
    assert!(s.reveal_step(3));
    assert!(!s.reveal_step(3));
    assert_eq!(s.position, 3);
    assert_eq!(s.part, 0);
    s.skip();
    assert_eq!(s.part, 1);
    assert_eq!(s.position, 0);
    assert!(!s.finished(5));
    s.skip();
    s.skip();
    s.skip();
    s.skip();
    assert!(s.finished(5));
}
