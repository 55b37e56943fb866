use invaders::invaders::{Invader, Invaders};
use invaders::player::Player;
use invaders::shot::Shot;

#[test]
fn player_starts_centred_on_bottom_row() {
    let p = Player::new(40, 20);
    assert_eq!(p.x, 20);
    assert_eq!(p.y, 19);
    assert_eq!(p.cols, 40);
    assert_eq!(p.shots.len(), 0);
}

#[test]
fn player_x_stays_in_bounds_under_any_command_burst() {
    let mut p = Player::new(5, 4);
    assert_eq!(p.x, 2);
    for _ in 0..10 {
        p.move_left();
        assert!(p.x <= 4);
    }
    assert_eq!(p.x, 0);
    p.move_left();
    assert_eq!(p.x, 0);
    for _ in 0..10 {
        p.move_right();
        assert!(p.x <= 4);
    }
    assert_eq!(p.x, 4);
    p.move_right();
    assert_eq!(p.x, 4);
}

#[test]
fn fourth_shot_is_refused_and_mutates_nothing() {
    let mut p = Player::new(7, 6);
    assert!(p.shoot());
    assert!(p.shoot());
    assert!(p.shoot());
    assert_eq!(p.shots.len(), 3);
    let before: Vec<Shot> = p.shots.clone();
    let x_before = p.x;
    assert!(!p.shoot());
    assert_eq!(p.shots.len(), 3);
    assert_eq!(p.x, x_before);
    for (a, b) in before.iter().zip(p.shots.iter()) {
        assert_eq!(a, b);
    }
}

#[test]
fn shot_spawns_just_above_the_ship() {
    let mut p = Player::new(9, 5);
    assert!(p.shoot());
    assert_eq!(p.shots[0].x, 4);
    assert_eq!(p.shots[0].y, 3);
    assert!(!p.shots[0].exploding);
}

#[test]
fn shot_travels_one_cell_per_step_interval() {
    let mut s = Shot::new(3, 4);
    s.update(49);
    assert_eq!(s.y, 4);
    s.update(1);
    assert_eq!(s.y, 3);
    assert!(!s.exploding);
    s.update(50);
    assert_eq!(s.y, 2);
}

#[test]
fn shot_explodes_at_travel_limit_and_dies_after_display() {
    let mut s = Shot::new(2, 1);
    s.update(50);
    assert_eq!(s.y, 0);
    assert!(s.exploding);
    assert!(!s.dead());
    s.update(249);
    assert!(!s.dead());
    s.update(1);
    assert!(s.dead());
}

#[test]
fn exploded_shot_is_drawn_one_frame_then_pruned() {
    let mut p = Player::new(7, 6);
    assert!(p.shoot());
    p.shots[0].explode();
    p.update(100);
    assert_eq!(p.shots.len(), 1);
    assert!(p.shots[0].exploding);
    p.update(150);
    assert_eq!(p.shots.len(), 0);
}

#[test]
fn hit_kills_exactly_one_invader_and_explodes_the_shot() {
    let mut p = Player::new(6, 6);
    assert!(p.shoot());
    let shot_cell = (p.shots[0].x, p.shots[0].y);
    let mut inv = Invaders::with_army(
        6,
        6,
        vec![Invader { x: shot_cell.0, y: shot_cell.1 }, Invader { x: 0, y: 0 }],
    );
    assert_eq!(inv.count(), 2);
    let hit = p.detect_hits(&mut inv);
    assert!(hit);
    assert_eq!(inv.count(), 1);
    assert!(p.shots[0].exploding);
    assert!(!inv.all_dead());
}

#[test]
fn exploding_shot_does_not_kill_again() {
    let mut p = Player::new(6, 6);
    assert!(p.shoot());
    p.shots[0].explode();
    let cell = (p.shots[0].x, p.shots[0].y);
    let mut inv = Invaders::with_army(6, 6, vec![Invader { x: cell.0, y: cell.1 }]);
    let hit = p.detect_hits(&mut inv);
    assert!(!hit);
    assert_eq!(inv.count(), 1);
}

#[test]
fn miss_keeps_the_shot_travelling() {
    let mut p = Player::new(6, 6);
    assert!(p.shoot());
    let mut inv = Invaders::with_army(6, 6, vec![Invader { x: 0, y: 0 }]);
    let hit = p.detect_hits(&mut inv);
    assert!(!hit);
    assert!(!p.shots[0].exploding);
    assert_eq!(inv.count(), 1);
}
