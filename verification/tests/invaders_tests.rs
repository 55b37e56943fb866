use invaders::invaders::{move_interval_ms, Direction, Invader, Invaders};

#[test]
fn move_interval_formula_is_exact() {
    assert_eq!(move_interval_ms(0), 250);
    assert_eq!(move_interval_ms(1), 275);
    assert_eq!(move_interval_ms(10), 500);
    assert_eq!(move_interval_ms(72), 2050);
}

#[test]
fn move_interval_shrinks_with_the_population() {
    let mut last = move_interval_ms(100);
    for n in (0..100).rev() {
        let cur = move_interval_ms(n);
        assert!(cur <= last);
        last = cur;
    }
}

#[test]
fn starting_formation_fills_every_other_cell_of_the_upper_band() {
    let inv = Invaders::new(12, 8);
    let mut cells: Vec<(usize, usize)> = inv.army.iter().map(|i| (i.x, i.y)).collect();
    cells.sort();
    assert_eq!(cells, vec![(2, 2), (4, 2), (6, 2), (8, 2)]);
    assert!(matches!(inv.direction, Direction::Right));
    assert_eq!(inv.timer_ms, move_interval_ms(4));
}

#[test]
fn all_dead_is_true_exactly_on_the_empty_population() {
    let mut inv = Invaders::with_army(5, 4, vec![Invader { x: 1, y: 1 }]);
    assert!(!inv.all_dead());
    assert!(inv.try_kill_invader_at(1, 1));
    assert!(inv.all_dead());
    let empty = Invaders::with_army(5, 4, Vec::new());
    assert!(empty.all_dead());
}

#[test]
fn kill_is_exact_and_misses_change_nothing() {
    let mut inv = Invaders::with_army(
        6,
        5,
        vec![Invader { x: 1, y: 2 }, Invader { x: 3, y: 2 }],
    );
    assert!(!inv.try_kill_invader_at(2, 2));
    assert_eq!(inv.count(), 2);
    assert!(inv.try_kill_invader_at(3, 2));
    assert_eq!(inv.count(), 1);
    assert!(!inv.try_kill_invader_at(3, 2));
    assert_eq!(inv.count(), 1);
    assert_eq!((inv.army[0].x, inv.army[0].y), (1, 2));
}

#[test]
fn edge_tick_descends_and_reverses_instead_of_escaping() {
    let mut inv = Invaders::with_army(5, 4, vec![Invader { x: 4, y: 0 }]);
    assert!(matches!(inv.direction, Direction::Right));
    let interval = move_interval_ms(1);
    let moved = inv.update(interval);
    assert!(moved);
    assert_eq!((inv.army[0].x, inv.army[0].y), (4, 1));
    assert!(matches!(inv.direction, Direction::Left));
    let moved = inv.update(interval);
    assert!(moved);
    assert_eq!((inv.army[0].x, inv.army[0].y), (3, 1));
    assert!(matches!(inv.direction, Direction::Left));
}

#[test]
fn formation_never_leaves_the_columns() {
    let mut inv = Invaders::with_army(4, 6, vec![Invader { x: 1, y: 0 }, Invader { x: 3, y: 0 }]);
    let interval = move_interval_ms(2);
    for _ in 0..12 {
        if inv.reached_bottom() {
            break;
        }
        inv.update(interval);
        for i in inv.army.iter() {
            assert!(i.x <= 3);
        }
    }
}

#[test]
fn short_delta_only_counts_down() {
    let mut inv = Invaders::with_army(5, 4, vec![Invader { x: 2, y: 0 }]);
    let t0 = inv.timer_ms;
    let moved = inv.update(t0 - 1);
    assert!(!moved);
    assert_eq!(inv.timer_ms, 1);
    assert_eq!((inv.army[0].x, inv.army[0].y), (2, 0));
}

#[test]
fn reached_bottom_sees_the_player_row() {
    let low = Invaders::with_army(5, 4, vec![Invader { x: 2, y: 3 }]);
    assert!(low.reached_bottom());
    let high = Invaders::with_army(5, 4, vec![Invader { x: 2, y: 2 }]);
    assert!(!high.reached_bottom());
}
