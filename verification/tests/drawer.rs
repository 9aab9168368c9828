use macsftp_app::drawer_height::{
    clamp_drawer_height, content_area_height_from_viewport, dragged_height, TransferDrawerResize,
    MAX_DRAWER_HEIGHT_ABS, MIN_DRAWER_HEIGHT,
};

/// A length in a window.
fn px(pixels: f64) -> i64 {
    (pixels * 1000.0) as i64
}

/// A height of the drawer.
fn high(pixels: f64) -> i64 {
    (pixels * 2000.0) as i64
}

#[test]
fn clamp_enforces_minimum() {
    let content = px(800.0);
    assert_eq!(clamp_drawer_height(high(10.0), content), MIN_DRAWER_HEIGHT);
}

#[test]
fn clamp_enforces_absolute_maximum() {
    let content = px(2000.0); // 50% = 1000 > 480 abs
    assert_eq!(
        clamp_drawer_height(high(900.0), content),
        MAX_DRAWER_HEIGHT_ABS
    );
}

#[test]
fn clamp_enforces_ratio_maximum() {
    let content = px(400.0); // 50% = 200 < 480
    assert_eq!(clamp_drawer_height(high(300.0), content), high(200.0));
}

#[test]
fn clamp_passes_through_in_range() {
    let content = px(800.0);
    assert_eq!(clamp_drawer_height(high(240.0), content), high(240.0));
}

#[test]
fn content_area_from_viewport_subtracts_chrome() {
    assert_eq!(
        content_area_height_from_viewport(px(864.0)),
        px(800.0)
    );
}

#[test]
fn dragging_up_makes_the_drawer_higher() {
    let start = TransferDrawerResize { start_height: high(240.0), start_y: px(500.0) };
    assert_eq!(dragged_height(start, px(450.0), px(800.0)), high(290.0));
    assert_eq!(dragged_height(start, px(900.0), px(800.0)), MIN_DRAWER_HEIGHT);
    assert_eq!(dragged_height(start, px(0.0), px(800.0)), high(400.0));
}

#[test]
fn half_of_a_length_is_kept_whole() {
    // Half of 401.001 pixels.
    assert_eq!(clamp_drawer_height(high(300.0), px(401.001)), 401_001);
    assert_eq!(content_area_height_from_viewport(px(90.0)), px(40.0));
    assert_eq!(clamp_drawer_height(high(300.0), px(40.0)), MIN_DRAWER_HEIGHT);
}
