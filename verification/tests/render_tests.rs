use invaders::frame::{new_frame, BLANK};
use invaders::render::render_diff;

#[test]
fn new_frame_is_blank_with_the_asked_dimensions() {
    let f = new_frame(4, 3);
    assert_eq!(f.num_cols(), 4);
    assert_eq!(f.num_rows(), 3);
    for x in 0..4 {
        for y in 0..3 {
            assert_eq!(f.get(x, y), BLANK);
        }
    }
}

#[test]
fn set_changes_one_cell_only() {
    let mut f = new_frame(4, 3);
    f.set(2, 1, 'A');
    for x in 0..4 {
        for y in 0..3 {
            if (x, y) == (2, 1) {
                assert_eq!(f.get(x, y), 'A');
            } else {
                assert_eq!(f.get(x, y), BLANK);
            }
        }
    }
}

#[test]
fn forced_redraw_writes_every_cell_in_column_major_order() {
    let f = new_frame(2, 2);
    let writes = render_diff(&f, &f, true);
    assert_eq!(writes.len(), 4);
    let cells: Vec<(usize, usize, char)> =
        writes.iter().map(|w| (w.x, w.y, w.glyph)).collect();
    assert_eq!(cells, vec![(0, 0, ' '), (0, 1, ' '), (1, 0, ' '), (1, 1, ' ')]);
}

#[test]
fn diff_writes_exactly_the_changed_cells() {
    let prev = new_frame(4, 3);
    let mut curr = new_frame(4, 3);
    curr.set(0, 1, '|');
    curr.set(2, 0, 'x');
    let writes = render_diff(&prev, &curr, false);
    let cells: Vec<(usize, usize, char)> =
        writes.iter().map(|w| (w.x, w.y, w.glyph)).collect();
    assert_eq!(cells, vec![(0, 1, '|'), (2, 0, 'x')]);
}

#[test]
fn clearing_a_cell_writes_a_blank() {
    let mut prev = new_frame(3, 3);
    prev.set(1, 1, 'x');
    let curr = new_frame(3, 3);
    let writes = render_diff(&prev, &curr, false);
    let cells: Vec<(usize, usize, char)> =
        writes.iter().map(|w| (w.x, w.y, w.glyph)).collect();
    assert_eq!(cells, vec![(1, 1, ' ')]);
}

#[test]
fn rendering_twice_with_identical_frames_writes_nothing() {
    let mut curr = new_frame(5, 4);
    curr.set(3, 2, 'A');
    let prev = new_frame(5, 4);
    let first = render_diff(&prev, &curr, false);
    assert_eq!(first.len(), 1);
    let second = render_diff(&curr, &curr, false);
    assert!(second.is_empty());
}
