use game_of_life::game::GameOfLife;
use game_of_life::history::HistoryBuffer;

/// A small board whose single live cell encodes `i` (distinct for i < 256).
fn marked_board(i: usize) -> GameOfLife {
    let mut g = GameOfLife::new(16, 16);
    g.toggle_cell(i / 16, i % 16);
    g
}

fn is_marked(g: &GameOfLife, i: usize) -> bool {
    let mut live = 0;
    for r in 0..16 {
        for c in 0..16 {
            if g.is_alive(r, c) {
                live += 1;
            }
        }
    }
    live == 1 && g.is_alive(i / 16, i % 16)
}

#[test]
fn accessors_report_length_and_capacity() {
    let mut h = HistoryBuffer::new(100);
    assert_eq!(h.len(), 0);
    assert_eq!(h.capacity(), 100);
    h.push(marked_board(0));
    assert_eq!(h.len(), 1);
    assert_eq!(h.capacity(), 100);
}

#[test]
fn pop_on_empty_is_none() {
    let mut h = HistoryBuffer::new(100);
    assert!(h.pop().is_none());
    assert_eq!(h.len(), 0);
}

#[test]
fn pushes_then_pops_return_boards_in_reverse_order() {
    let mut h = HistoryBuffer::new(100);
    for i in 0..5 {
        h.push(marked_board(i));
    }
    assert_eq!(h.len(), 5);
    for i in (0..5).rev() {
        let g = h.pop().expect("a pushed board");
        assert!(is_marked(&g, i));
    }
    assert!(h.pop().is_none());
}

#[test]
fn pushing_past_capacity_evicts_the_oldest() {
    let mut h = HistoryBuffer::new(3);
    for i in 0..4 {
        h.push(marked_board(i));
    }
    assert_eq!(h.len(), 3);
    assert!(is_marked(&h.pop().unwrap(), 3));
    assert!(is_marked(&h.pop().unwrap(), 2));
    assert!(is_marked(&h.pop().unwrap(), 1));
    // the first board is gone for good
    assert!(h.pop().is_none());
}

#[test]
fn hundred_and_first_push_loses_only_the_first_board() {
    let mut h = HistoryBuffer::new(100);
    for i in 0..101 {
        h.push(marked_board(i));
    }
    assert_eq!(h.len(), 100);
    for i in (1..101).rev() {
        let g = h.pop().expect("a retained board");
        assert!(is_marked(&g, i));
    }
    assert!(h.pop().is_none());
}

#[test]
fn zero_capacity_retains_nothing() {
    let mut h = HistoryBuffer::new(0);
    h.push(marked_board(1));
    assert_eq!(h.len(), 0);
    assert!(h.pop().is_none());
}
