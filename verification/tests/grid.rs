use game_of_life::game::GameOfLife;

#[test]
fn new_board_is_all_dead() {
    let g = GameOfLife::new(4, 6);
    assert_eq!(g.rows, 4);
    assert_eq!(g.cols, 6);
    for r in 0..4 {
        for c in 0..6 {
            assert!(!g.is_alive(r, c));
        }
    }
}

#[test]
fn degenerate_dimensions_are_valid() {
    let mut g = GameOfLife::new(0, 0);
    assert!(!g.is_alive(0, 0));
    g.next_generation();
    let mut h = GameOfLife::new(0, 5);
    h.toggle_cell(0, 0);
    h.next_generation();
    assert!(!h.is_alive(0, 0));
}

#[test]
fn toggle_twice_restores_cell() {
    let mut g = GameOfLife::new(10, 10);
    assert!(!g.is_alive(3, 4));
    g.toggle_cell(3, 4);
    assert!(g.is_alive(3, 4));
    g.toggle_cell(3, 4);
    assert!(!g.is_alive(3, 4));
}

#[test]
fn toggle_out_of_bounds_is_ignored() {
    let mut g = GameOfLife::new(10, 10);
    g.toggle_cell(10, 0);
    g.toggle_cell(0, 10);
    g.toggle_cell(500, 500);
    for r in 0..10 {
        for c in 0..10 {
            assert!(!g.is_alive(r, c));
        }
    }
}

#[test]
fn is_alive_out_of_bounds_is_false() {
    let mut g = GameOfLife::new(3, 3);
    g.toggle_cell(2, 2);
    assert!(!g.is_alive(3, 2));
    assert!(!g.is_alive(2, 3));
    assert!(!g.is_alive(1000, 1000));
}

#[test]
fn corner_cell_with_no_neighbors_dies() {
    let mut g = GameOfLife::new(5, 5);
    g.toggle_cell(0, 0);
    assert!(g.is_alive(0, 0));
    g.next_generation();
    for r in 0..5 {
        for c in 0..5 {
            assert!(!g.is_alive(r, c));
        }
    }
}

#[test]
fn lone_cell_dies_in_one_generation() {
    let mut g = GameOfLife::new(7, 7);
    g.toggle_cell(3, 3);
    g.next_generation();
    assert!(!g.is_alive(3, 3));
    for r in 0..7 {
        for c in 0..7 {
            assert!(!g.is_alive(r, c));
        }
    }
}

#[test]
fn dead_cell_with_three_neighbors_is_born() {
    let mut g = GameOfLife::new(5, 5);
    g.toggle_cell(1, 1);
    g.toggle_cell(1, 2);
    g.toggle_cell(2, 1);
    g.next_generation();
    assert!(g.is_alive(2, 2));
    assert!(g.is_alive(1, 1));
    assert!(g.is_alive(1, 2));
    assert!(g.is_alive(2, 1));
}

#[test]
fn blinker_oscillates_with_period_two() {
    let mut g = GameOfLife::new(7, 7);
    g.toggle_cell(3, 2);
    g.toggle_cell(3, 3);
    g.toggle_cell(3, 4);

    g.next_generation();
    for r in 0..7 {
        for c in 0..7 {
            let expected = c == 3 && (r == 2 || r == 3 || r == 4);
            assert_eq!(g.is_alive(r, c), expected);
        }
    }

    g.next_generation();
    for r in 0..7 {
        for c in 0..7 {
            let expected = r == 3 && (c == 2 || c == 3 || c == 4);
            assert_eq!(g.is_alive(r, c), expected);
        }
    }
}

#[test]
fn next_generation_is_deterministic() {
    let mut a = GameOfLife::new(8, 8);
    let mut b = GameOfLife::new(8, 8);
    let pattern = [(1usize, 1usize), (1, 2), (2, 1), (4, 4), (4, 5), (4, 6), (6, 2)];
    for (r, c) in pattern {
        a.toggle_cell(r, c);
        b.toggle_cell(r, c);
    }
    a.next_generation();
    b.next_generation();
    for r in 0..8 {
        for c in 0..8 {
            assert_eq!(a.is_alive(r, c), b.is_alive(r, c));
        }
    }
}

#[test]
fn snapshot_is_a_deep_copy() {
    let mut g = GameOfLife::new(4, 4);
    g.toggle_cell(1, 1);
    let snap = g.snapshot();
    g.toggle_cell(1, 1);
    g.toggle_cell(0, 0);
    assert!(snap.is_alive(1, 1));
    assert!(!snap.is_alive(0, 0));
    assert!(!g.is_alive(1, 1));
}
