use invaders::game::{Game, InputAction, Outcome};
use invaders::invaders::{move_interval_ms, Invader, Invaders};
use invaders::player::{Player, PLAYER_GLYPH};

fn synthetic_game(cols: usize, rows: usize, army: Vec<Invader>) -> Game {
    Game { player: Player::new(cols, rows), invaders: Invaders::with_army(cols, rows, army) }
}

#[test]
fn inputs_map_to_the_four_actions() {
    let mut g = Game::new(9, 6);
    let x0 = g.player.x;
    let r = g.handle_input(InputAction::Left);
    assert!(!r.fired && !r.quit);
    assert_eq!(g.player.x, x0 - 1);
    let r = g.handle_input(InputAction::Right);
    assert!(!r.fired && !r.quit);
    assert_eq!(g.player.x, x0);
    let r = g.handle_input(InputAction::Shoot);
    assert!(r.fired && !r.quit);
    assert_eq!(g.player.shots.len(), 1);
    let r = g.handle_input(InputAction::Quit);
    assert!(!r.fired && r.quit);
    assert_eq!(g.player.shots.len(), 1);
    assert_eq!(g.player.x, x0);
}

#[test]
fn shoot_input_is_refused_at_capacity() {
    let mut g = Game::new(9, 6);
    assert!(g.handle_input(InputAction::Shoot).fired);
    assert!(g.handle_input(InputAction::Shoot).fired);
    assert!(g.handle_input(InputAction::Shoot).fired);
    assert!(!g.handle_input(InputAction::Shoot).fired);
    assert_eq!(g.player.shots.len(), 3);
}

#[test]
fn tick_reports_a_hit_and_plays_out_a_win() {
    let mut g = synthetic_game(6, 6, vec![Invader { x: 3, y: 4 }]);
    assert_eq!(g.player.x, 3);
    assert!(g.handle_input(InputAction::Shoot).fired);
    let r = g.tick(0);
    assert!(r.hit);
    assert!(g.invaders.army.is_empty());
    assert_eq!(r.outcome, Some(Outcome::Win));
}

#[test]
fn descending_onto_the_player_row_loses() {
    let mut g = synthetic_game(3, 3, vec![Invader { x: 2, y: 1 }]);
    let r = g.tick(move_interval_ms(1));
    assert!(r.moved);
    assert_eq!((g.invaders.army[0].x, g.invaders.army[0].y), (2, 2));
    assert_eq!(r.outcome, Some(Outcome::Lose));
}

#[test]
fn quiet_tick_continues_the_game() {
    let mut g = synthetic_game(8, 6, vec![Invader { x: 2, y: 1 }]);
    let r = g.tick(1);
    assert!(!r.hit);
    assert!(!r.moved);
    assert_eq!(r.outcome, None);
}

#[test]
fn tick_draws_player_and_invaders_into_the_frame() {
    let mut g = synthetic_game(8, 6, vec![Invader { x: 2, y: 1 }]);
    let r = g.tick(1);
    assert_eq!(r.frame.get(g.player.x, g.player.y), PLAYER_GLYPH);
    assert_eq!(r.frame.get(2, 1), 'x');
    assert_eq!(r.frame.get(0, 0), ' ');
}

#[test]
fn full_scenario_descends_then_wins_exactly_once() {
    let mut g = synthetic_game(
        10,
        6,
        vec![Invader { x: 2, y: 0 }, Invader { x: 4, y: 0 }],
    );
    let interval = move_interval_ms(2);
    let mut descents = 0;
    for _ in 0..14 {
        let before_rows: Vec<usize> = g.invaders.army.iter().map(|i| i.y).collect();
        let r = g.tick(interval);
        assert!(r.moved);
        assert_eq!(r.outcome, None);
        let after_rows: Vec<usize> = g.invaders.army.iter().map(|i| i.y).collect();
        if after_rows > before_rows {
            descents += 1;
        }
    }
    assert_eq!(descents, 2);
    assert_eq!(g.invaders.count(), 2);
    let cells: Vec<(usize, usize)> = g.invaders.army.iter().map(|i| (i.x, i.y)).collect();
    for (x, y) in cells {
        assert!(g.invaders.try_kill_invader_at(x, y));
    }
    assert!(g.invaders.all_dead());
    let mut wins = 0;
    loop {
        let r = g.tick(1);
        assert!(!r.hit);
        if r.outcome == Some(Outcome::Win) {
            wins += 1;
            break;
        }
    }
    assert_eq!(wins, 1);
}
