use boids::boundary::{wrap_edge, Side};

fn side_of(coordinate: f32, extent: u32) -> Side {
    if coordinate < 0.0 {
        Side::Below
    } else if coordinate > extent as f32 {
        Side::Above
    } else {
        Side::Inside
    }
}

fn wrapped(coordinate: f32, extent: u32) -> f32 {
    match wrap_edge(side_of(coordinate, extent), extent) {
        Some(edge) => edge as f32,
        None => coordinate,
    }
}

#[test]
fn wrap_below_zero_lands_on_the_far_edge() {
    assert_eq!(wrap_edge(Side::Below, 1280), Some(1280));
    assert_eq!(wrapped(-0.5, 1280), 1280.0);
}

#[test]
fn wrap_above_the_extent_lands_on_zero() {
    assert_eq!(wrap_edge(Side::Above, 1280), Some(0));
    assert_eq!(wrapped(1280.5, 1280), 0.0);
}

#[test]
fn wrap_leaves_a_coordinate_inside_alone() {
    assert_eq!(wrap_edge(Side::Inside, 1280), None);
    assert_eq!(wrapped(0.0, 1280), 0.0);
    assert_eq!(wrapped(640.25, 1280), 640.25);
    assert_eq!(wrapped(1280.0, 1280), 1280.0);
}

#[test]
fn wrap_is_a_single_step_whatever_the_overshoot() {
    assert_eq!(wrapped(-5000.0, 720), 720.0);
    assert_eq!(wrapped(5000.0, 720), 0.0);
}

#[test]
fn wrap_of_a_wrapped_coordinate_changes_nothing() {
    for start in [-3.0f32, 0.0, 17.5, 720.0, 720.5, 9000.0] {
        let once = wrapped(start, 720);
        assert_eq!(wrapped(once, 720), once);
    }
}

#[test]
fn wrap_uses_the_extent_it_is_given() {
    assert_eq!(wrapped(-1.0, 1280), 1280.0);
    assert_eq!(wrapped(-1.0, 800), 800.0);
    assert_eq!(wrapped(900.0, 1280), 900.0);
    assert_eq!(wrapped(900.0, 800), 0.0);
}
