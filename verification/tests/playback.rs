use game_of_life::game::GameOfLife;
use game_of_life::history::HistoryBuffer;
use game_of_life::playback::PlaybackController;

fn blinker() -> GameOfLife {
    let mut g = GameOfLife::new(7, 7);
    g.toggle_cell(3, 2);
    g.toggle_cell(3, 3);
    g.toggle_cell(3, 4);
    g
}

fn is_horizontal_blinker(g: &GameOfLife) -> bool {
    g.is_alive(3, 2) && g.is_alive(3, 3) && g.is_alive(3, 4) && !g.is_alive(2, 3)
}

fn is_vertical_blinker(g: &GameOfLife) -> bool {
    g.is_alive(2, 3) && g.is_alive(3, 3) && g.is_alive(4, 3) && !g.is_alive(3, 2)
}

#[test]
fn new_controller_is_paused_at_generation_zero() {
    let p = PlaybackController::new();
    assert!(!p.is_playing());
    assert_eq!(p.generation_count(), 0);
    assert_eq!(p.time_accumulator_micros, 0);
    assert_eq!(p.rate_num, 5);
    assert_eq!(p.rate_den, 1);
}

#[test]
fn toggle_play_flips_the_state() {
    let mut p = PlaybackController::new();
    p.toggle_play();
    assert!(p.is_playing());
    p.toggle_play();
    assert!(!p.is_playing());
}

#[test]
fn step_forward_commits_and_step_backward_restores() {
    let mut p = PlaybackController::new();
    let mut g = blinker();
    let mut h = HistoryBuffer::new(100);

    p.step_forward(&mut g, &mut h);
    assert_eq!(p.generation_count(), 1);
    assert_eq!(h.len(), 1);
    assert!(is_vertical_blinker(&g));

    p.step_backward(&mut g, &mut h);
    assert_eq!(p.generation_count(), 0);
    assert_eq!(h.len(), 0);
    assert!(is_horizontal_blinker(&g));

    // nothing left to undo: a no-op, not a fault
    p.step_backward(&mut g, &mut h);
    assert_eq!(p.generation_count(), 0);
    assert!(is_horizontal_blinker(&g));
}

#[test]
fn step_backward_without_committed_generations_is_a_no_op() {
    let mut p = PlaybackController::new();
    let mut g = blinker();
    let mut h = HistoryBuffer::new(100);
    h.push(GameOfLife::new(7, 7));
    p.step_backward(&mut g, &mut h);
    assert_eq!(p.generation_count(), 0);
    assert_eq!(h.len(), 1);
    assert!(is_horizontal_blinker(&g));
}

#[test]
fn tick_does_nothing_while_paused() {
    let mut p = PlaybackController::new();
    let mut g = blinker();
    let mut h = HistoryBuffer::new(100);
    let stepped = p.tick(1_000_000, &mut g, &mut h);
    assert!(!stepped);
    assert_eq!(p.time_accumulator_micros, 0);
    assert_eq!(p.generation_count(), 0);
    assert!(is_horizontal_blinker(&g));
}

#[test]
fn tick_accumulates_until_a_period_has_elapsed() {
    let mut p = PlaybackController::new();
    let mut g = blinker();
    let mut h = HistoryBuffer::new(100);
    p.toggle_play();
    // at 5 generations per second one period is 200_000 us
    let stepped = p.tick(100_000, &mut g, &mut h);
    assert!(!stepped);
    assert_eq!(p.time_accumulator_micros, 100_000);
    assert!(is_horizontal_blinker(&g));

    let stepped2 = p.tick(100_000, &mut g, &mut h);
    assert!(stepped2);
    assert_eq!(p.time_accumulator_micros, 0);
    assert_eq!(p.generation_count(), 1);
    assert_eq!(h.len(), 1);
    assert!(is_vertical_blinker(&g));
}

#[test]
fn tick_commits_at_most_one_generation_and_sheds_the_backlog() {
    let mut p = PlaybackController::new();
    let mut g = blinker();
    let mut h = HistoryBuffer::new(100);
    p.toggle_play();
    // ten periods at once: one step only, and no carried-over backlog
    let stepped = p.tick(2_000_000, &mut g, &mut h);
    assert!(stepped);
    assert_eq!(p.generation_count(), 1);
    assert_eq!(p.time_accumulator_micros, 0);
    assert!(is_vertical_blinker(&g));
}

#[test]
fn set_rate_changes_the_period() {
    let mut p = PlaybackController::new();
    let mut g = blinker();
    let mut h = HistoryBuffer::new(100);
    p.set_rate(1, 1);
    p.toggle_play();
    let stepped = p.tick(500_000, &mut g, &mut h);
    assert!(!stepped);
    let stepped2 = p.tick(500_000, &mut g, &mut h);
    assert!(stepped2);
    assert_eq!(p.generation_count(), 1);
}
