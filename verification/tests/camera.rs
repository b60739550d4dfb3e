use game_of_life::camera::Camera;
use game_of_life::frac::Frac;

fn fr(num: i128, den: i128) -> Frac {
    Frac { num, den }
}

#[test]
fn new_camera_has_origin_offset_and_unit_zoom() {
    let c = Camera::new();
    assert_eq!(c.offset_x.num, 0);
    assert_eq!(c.offset_x.den, 1);
    assert_eq!(c.offset_y.num, 0);
    assert_eq!(c.offset_y.den, 1);
    assert_eq!(c.zoom.num, 1);
    assert_eq!(c.zoom.den, 1);
}

#[test]
fn pan_adds_the_delta_to_the_offset() {
    let mut c = Camera::new();
    c.handle_pan(fr(3, 1), fr(-2, 1));
    assert_eq!(c.offset_x.num, 3);
    assert_eq!(c.offset_x.den, 1);
    assert_eq!(c.offset_y.num, -2);
    assert_eq!(c.offset_y.den, 1);
    c.handle_pan(fr(1, 2), fr(0, 1));
    // 3 + 1/2 == 7/2
    assert_eq!(c.offset_x.num, 7);
    assert_eq!(c.offset_x.den, 2);
}

#[test]
fn scaled_cell_size_multiplies_by_zoom() {
    let mut c = Camera::new();
    let s = c.scaled_cell_size(fr(15, 1));
    assert_eq!(s.num, 15);
    assert_eq!(s.den, 1);
    c.handle_zoom(fr(2, 1), fr(0, 1), fr(0, 1));
    let s2 = c.scaled_cell_size(fr(15, 1));
    assert_eq!(s2.num, 30);
    assert_eq!(s2.den, 1);
}

#[test]
fn zoom_factor_one_reports_unchanged() {
    let mut c = Camera::new();
    c.handle_pan(fr(5, 1), fr(6, 1));
    let changed = c.handle_zoom(fr(1, 1), fr(100, 1), fr(100, 1));
    assert!(!changed);
    assert_eq!(c.offset_x.num, 5);
    assert_eq!(c.offset_y.num, 6);
    assert_eq!(c.zoom.num, 1);
    assert_eq!(c.zoom.den, 1);
    // equal numerator and denominator is still a factor of one
    let changed2 = c.handle_zoom(fr(7, 7), fr(0, 1), fr(0, 1));
    assert!(!changed2);
}

#[test]
fn zoom_clamps_to_upper_bound() {
    let mut c = Camera::new();
    let changed = c.handle_zoom(fr(6, 1), fr(0, 1), fr(0, 1));
    assert!(changed);
    assert_eq!(c.zoom.num, 5);
    assert_eq!(c.zoom.den, 1);
}

#[test]
fn zoom_clamps_to_lower_bound() {
    let mut c = Camera::new();
    let changed = c.handle_zoom(fr(1, 16), fr(0, 1), fr(0, 1));
    assert!(changed);
    assert_eq!(c.zoom.num, 1);
    assert_eq!(c.zoom.den, 10);
}

#[test]
fn zoom_swallowed_by_the_clamp_reports_unchanged() {
    let mut c = Camera::new();
    assert!(c.handle_zoom(fr(6, 1), fr(0, 1), fr(0, 1)));
    assert_eq!(c.zoom.num, 5 * c.zoom.den);
    // already at the upper bound: zooming in further changes nothing
    let changed = c.handle_zoom(fr(2, 1), fr(0, 1), fr(0, 1));
    assert!(!changed);
    assert_eq!(c.zoom.num, 5 * c.zoom.den);

    let mut d = Camera::new();
    assert!(d.handle_zoom(fr(1, 16), fr(0, 1), fr(0, 1)));
    assert_eq!(10 * d.zoom.num, d.zoom.den);
    // already at the lower bound: zooming out further changes nothing
    let changed_low = d.handle_zoom(fr(1, 16), fr(0, 1), fr(0, 1));
    assert!(!changed_low);
    assert_eq!(10 * d.zoom.num, d.zoom.den);
}

#[test]
fn screen_to_cell_floors_to_the_cell_under_the_point() {
    let c = Camera::new();
    let cell = fr(15, 1);
    // (100, 40) with cell size 15: column 6, row 2
    assert_eq!(c.screen_to_cell(fr(100, 1), fr(40, 1), cell, 1000, 1000), Some((2, 6)));
    // points left of or above the board are off it
    assert_eq!(c.screen_to_cell(fr(-1, 1), fr(40, 1), cell, 1000, 1000), None);
    // a point beyond a small board is off it too
    assert_eq!(c.screen_to_cell(fr(100, 1), fr(40, 1), cell, 5, 5), None);
}

#[test]
fn normalize_keeps_values_and_shrinks_parts() {
    let mut c = Camera::new();
    c.handle_pan(fr(1, 2), fr(-1, 2));
    c.handle_pan(fr(1, 2), fr(-1, 2));
    // 1/2 + 1/2 accumulated as 4/4; reduced back to 1/1
    assert_eq!(c.offset_x.num, 4);
    assert_eq!(c.offset_x.den, 4);
    c.normalize();
    assert_eq!(c.offset_x.num, 1);
    assert_eq!(c.offset_x.den, 1);
    assert_eq!(c.offset_y.num, -1);
    assert_eq!(c.offset_y.den, 1);
    assert_eq!(c.zoom.num, 1);
    assert_eq!(c.zoom.den, 1);
}

#[test]
fn zoom_keeps_the_anchor_point_fixed() {
    let mut c = Camera::new();
    let cell = fr(15, 1);
    let before = c.screen_to_grid(fr(100, 1), fr(100, 1), cell);
    let changed = c.handle_zoom(fr(2, 1), fr(100, 1), fr(100, 1));
    assert!(changed);
    // offset moves to -100 (times a common factor), zoom doubles
    assert_eq!(c.offset_x.num, -100 * c.offset_x.den);
    assert_eq!(c.offset_y.num, -100 * c.offset_y.den);
    assert_eq!(c.zoom.num, 2 * c.zoom.den);
    let after = c.screen_to_grid(fr(100, 1), fr(100, 1), cell);
    // the grid point under the anchor is unchanged, as exact rationals
    assert_eq!(before.0.num * after.0.den, after.0.num * before.0.den);
    assert_eq!(before.1.num * after.1.den, after.1.num * before.1.den);
}

#[test]
fn screen_to_grid_inverts_grid_to_screen() {
    let mut c = Camera::new();
    c.handle_pan(fr(7, 1), fr(-9, 1));
    let cell = fr(15, 1);
    let p = c.grid_to_screen(4, 6, cell);
    let g = c.screen_to_grid(p.0, p.1, cell);
    // back to column 6, row 4, exactly
    assert_eq!(g.0.num, 6 * g.0.den);
    assert_eq!(g.1.num, 4 * g.1.den);
}

#[test]
fn visible_range_culls_to_the_screen_rectangle() {
    let c = Camera::new();
    let cell = fr(15, 1);
    let r = c.visible_range(fr(0, 1), fr(0, 1), fr(800, 1), fr(600, 1), 1000, 1000, cell);
    // ceil(600/15) == 40 rows, ceil(800/15) == 54 columns
    assert_eq!(r, (0, 40, 0, 54));
}

#[test]
fn visible_range_clamps_to_the_board() {
    let c = Camera::new();
    let cell = fr(15, 1);
    let r = c.visible_range(fr(0, 1), fr(0, 1), fr(800, 1), fr(600, 1), 3, 2, cell);
    assert_eq!(r, (0, 3, 0, 2));
}

#[test]
fn visible_range_is_empty_when_the_board_is_off_screen() {
    let mut c = Camera::new();
    c.handle_pan(fr(3000, 1), fr(3000, 1));
    let cell = fr(15, 1);
    let r = c.visible_range(fr(0, 1), fr(0, 1), fr(800, 1), fr(600, 1), 1000, 1000, cell);
    assert_eq!(r, (0, 0, 0, 0));
}
