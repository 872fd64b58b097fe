use herdr_modes::nav::{find_attention, step, tab_move, wrap};

#[test]
fn wrap_folds_negative_and_overflowing_indexes() {
    assert_eq!(wrap(0, 3), 0);
    assert_eq!(wrap(2, 3), 2);
    assert_eq!(wrap(3, 3), 0);
    assert_eq!(wrap(7, 3), 1);
    assert_eq!(wrap(-1, 3), 2);
    assert_eq!(wrap(-3, 3), 0);
    assert_eq!(wrap(-4, 3), 2);
    assert_eq!(wrap(-1, 1), 0);
}

#[test]
fn wrap_handles_the_extremes_of_i64() {
    assert_eq!(wrap(i64::MIN, 3), 1);
    assert_eq!(wrap(i64::MAX, 3), 1);
    assert_eq!(wrap(i64::MIN, i64::MAX as usize), i64::MAX as usize - 1);
}

#[test]
fn step_moves_and_wraps() {
    assert_eq!(step(Some(0), 1, 3), 1);
    assert_eq!(step(Some(2), 1, 3), 0);
    assert_eq!(step(Some(0), -1, 3), 2);
    assert_eq!(step(Some(1), -1, 3), 0);
}

#[test]
fn step_from_none_enters_at_the_near_end() {
    assert_eq!(step(None, 1, 4), 0);
    assert_eq!(step(None, -1, 4), 3);
    assert_eq!(step(None, 1, 1), 0);
    assert_eq!(step(None, -1, 1), 0);
}

#[test]
fn step_back_undoes_a_step() {
    for n in 1..6usize {
        for cur in 0..n {
            for delta in [-3i64, -1, 1, 2] {
                let there = step(Some(cur), delta, n);
                assert_eq!(step(Some(there), -delta, n), cur);
            }
        }
    }
}

fn wanted(rows: &[bool], cur: Option<usize>, delta: i64) -> Option<usize> {
    find_attention(rows, cur, delta, |w: &bool| *w)
}

#[test]
fn find_attention_walks_forward_and_backward() {
    let rows = [false, true, false, true];
    assert_eq!(wanted(&rows, Some(0), 1), Some(1));
    assert_eq!(wanted(&rows, Some(1), 1), Some(3));
    assert_eq!(wanted(&rows, Some(3), -1), Some(1));
    assert_eq!(wanted(&rows, Some(2), -1), Some(1));
}

#[test]
fn find_attention_wraps_once_around() {
    let rows = [true, false, false];
    assert_eq!(wanted(&rows, Some(1), 1), Some(0));
    let rows = [false, false, true];
    assert_eq!(wanted(&rows, Some(1), -1), Some(2));
    // The current row is the last one checked, after the wrap.
    let rows = [false, true, false];
    assert_eq!(wanted(&rows, Some(1), 1), Some(1));
    assert_eq!(wanted(&rows, Some(1), -1), Some(1));
}

#[test]
fn find_attention_skips_busy_rows() {
    let rows = [false, false, false, true, false];
    assert_eq!(wanted(&rows, Some(0), 1), Some(3));
    assert_eq!(wanted(&rows, Some(0), -1), Some(3));
}

#[test]
fn find_attention_is_none_when_nothing_waits() {
    let rows = [false, false, false];
    assert_eq!(wanted(&rows, Some(1), 1), None);
    assert_eq!(wanted(&rows, Some(1), -1), None);
    assert_eq!(wanted(&rows, None, 1), None);
    assert_eq!(wanted(&rows, None, -1), None);
    assert_eq!(wanted(&[], None, 1), None);
    assert_eq!(wanted(&[], Some(0), -1), None);
}

#[test]
fn find_attention_from_outside_lands_on_the_end_row() {
    let rows = [true, false, true];
    assert_eq!(wanted(&rows, None, 1), Some(0));
    assert_eq!(wanted(&rows, None, -1), Some(2));
    // The end row is skipped only when it is busy.
    let rows = [false, true, false];
    assert_eq!(wanted(&rows, None, 1), Some(1));
    assert_eq!(wanted(&rows, None, -1), Some(1));
}

#[test]
fn tab_move_in_the_middle() {
    assert_eq!(tab_move(1, 1, 4), Some((3, 2)));
    assert_eq!(tab_move(1, -1, 4), Some((0, 0)));
}

#[test]
fn tab_move_at_the_edges() {
    assert_eq!(tab_move(0, -1, 4), None);
    assert_eq!(tab_move(3, 1, 4), None);
    assert_eq!(tab_move(0, 1, 4), Some((2, 1)));
    assert_eq!(tab_move(2, 1, 4), Some((4, 3)));
    assert_eq!(tab_move(3, -1, 4), Some((2, 2)));
    assert_eq!(tab_move(0, 1, 2), Some((2, 1)));
    assert_eq!(tab_move(1, -1, 2), Some((0, 0)));
}
