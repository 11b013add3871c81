//! The viewport transform and the default navigation module.

use map_core::map::TILT_MAX_UNITS;
use map_core::{
    ControlState, DefaultMapControl, ElementState, Fx, HandlerStore, InputEvent,
    MapControlSettings, MapEventDispatcher, MapPosition, MouseButton, PixelPoint, ScrollDelta,
    handle_right_button_drag,
};

const ONE: f64 = 4294967296.0;

fn val(x: Fx) -> f64 {
    x.bits as f64 / ONE
}

fn standard_position() -> MapPosition {
    let mut p = MapPosition::default();
    p.set_screen_size(800, 600);
    p.set_resolution(Fx::from_int(2));
    p.set_center(Fx::from_int(100), Fx::from_int(50));
    p
}

#[test]
fn tilt_clamps_at_three_eighths_pi() {
    let mut p = MapPosition::default();
    for _ in 0..5 {
        p.rotate(Fx::from_int(10), Fx::zero());
    }
    assert_eq!(TILT_MAX_UNITS, p.rotation_x().bits);
    assert!(val(p.rotation_x()) <= 3.0 * std::f64::consts::PI / 8.0);

    for _ in 0..5 {
        p.rotate(Fx::from_int(-10), Fx::zero());
    }
    assert_eq!(0, p.rotation_x().bits);
}

#[test]
fn yaw_accumulates_unbounded() {
    let mut p = MapPosition::default();
    for _ in 0..100 {
        p.rotate(Fx::zero(), Fx::from_int(1));
    }
    assert_eq!(100 * 4294967296i64, p.rotation_z().bits);
}

fn forward_pixel(p: &MapPosition, w: map_core::Point) -> (f64, f64) {
    let m = p.matrix();
    let wx = val(w.x);
    let wy = val(w.y);
    let ndc_x = val(m[0]) * wx + val(m[1]) * wy + val(m[3]);
    let ndc_y = val(m[4]) * wx + val(m[5]) * wy + val(m[7]);
    let sx = (ndc_x + 1.0) * p.width_px() as f64 / 2.0;
    let sy = (1.0 - ndc_y) * p.height_px() as f64 / 2.0;
    (sx, sy)
}

#[test]
fn screen_to_world_round_trips_through_the_matrix() {
    let mut p = standard_position();
    p.rotate(Fx::zero(), Fx::from_ratio(3, 10));

    let px = PixelPoint { x: 300, y: 200 };
    let (sx, sy) = forward_pixel(&p, p.get_map_position(&px));
    assert!((sx - 300.0).abs() < 0.05, "x round trip drifted: {}", sx);
    assert!((sy - 200.0).abs() < 0.05, "y round trip drifted: {}", sy);
}

#[test]
fn tilted_round_trip_drifts_only_by_the_depth_residual() {
    let mut p = standard_position();
    p.rotate(Fx::from_ratio(1, 10), Fx::from_ratio(3, 10));

    let px = PixelPoint { x: 300, y: 200 };
    let (sx, sy) = forward_pixel(&p, p.get_map_position(&px));
    assert!((sx - 300.0).abs() < 2.0, "x round trip drifted: {}", sx);
    assert!((sy - 200.0).abs() < 2.0, "y round trip drifted: {}", sy);
}

#[test]
fn zoom_recenters_by_the_prescribed_rule() {
    let mut p = standard_position();
    let cursor = PixelPoint { x: 250, y: 420 };
    let under_cursor = p.get_map_position(&cursor);
    let c = p.center();
    p.zoom(Fx::from_int(2), cursor);
    let moved = p.center();
    let expected_x = val(c.x) + (val(c.x) - val(under_cursor.x)) * (1.0 - 2.0);
    let expected_y = val(c.y) + (val(c.y) - val(under_cursor.y)) * (1.0 - 2.0);
    assert!((val(moved.x) - expected_x).abs() < 0.001);
    assert!((val(moved.y) - expected_y).abs() < 0.001);
    assert!((val(p.resolution()) - 1.0).abs() < 1e-6);
}

#[test]
fn zoom_rejects_non_positive_factor_upstream() {
    let mut p = standard_position();
    let r = p.resolution();
    let handled = map_core::handle_zoom(
        map_core::ZoomEvent { delta: Fx::zero(), cursor_position: PixelPoint { x: 0, y: 0 } },
        &mut p,
    );
    assert_eq!(map_core::EventState::Final, handled);
    assert_eq!(r, p.resolution());
}

#[test]
fn matrix_of_identity_viewport() {
    let p = MapPosition::default();
    let m = p.matrix();
    assert!((val(m[0]) - 1.0).abs() < 1e-4);
    assert!(val(m[1]).abs() < 1e-4);
    assert_eq!(0, m[2].bits);
    assert_eq!(0, m[3].bits);
    assert!((val(m[5]) - 1.0).abs() < 1e-4);
    assert_eq!(0, m[12].bits);
    assert_eq!(0, m[13].bits);
    assert_eq!(0, m[14].bits);
    assert_eq!(4294967296, m[15].bits);
}

#[test]
fn translate_px_pans_the_center() {
    let mut p = MapPosition::default();
    p.set_screen_size(100, 100);
    p.translate_px(10, 20);
    let c = p.center();
    assert!((val(c.x) + 10.0).abs() < 0.001, "center x: {}", val(c.x));
    assert!((val(c.y) + 20.0).abs() < 0.001, "center y: {}", val(c.y));
}

#[test]
fn degenerate_inputs_are_no_ops() {
    let mut p = standard_position();
    let r = p.resolution();
    p.set_resolution(Fx::zero());
    assert_eq!(r, p.resolution());
    p.set_resolution(Fx::from_int(-3));
    assert_eq!(r, p.resolution());

    p.set_screen_size(0, 50);
    assert_eq!(800, p.width_px());
    assert_eq!(600, p.height_px());
}

#[test]
fn right_drag_turns_by_the_cursor_angle() {
    let mut p = MapPosition::default();
    p.set_screen_size(100, 100);
    handle_right_button_drag(0, 10, &mut p, PixelPoint { x: 60, y: 50 });
    let expected = std::f64::consts::PI / 4.0;
    assert!(
        (val(p.rotation_z()) - expected).abs() < 0.02,
        "yaw after right drag: {}",
        val(p.rotation_z())
    );
}

#[test]
fn right_drag_of_degenerate_vectors_is_a_no_op() {
    let mut p = MapPosition::default();
    p.set_screen_size(100, 100);
    handle_right_button_drag(3, 7, &mut p, PixelPoint { x: 50, y: 50 });
    assert_eq!(0, p.rotation_z().bits);
}

#[test]
fn rotation_matrices_invert_each_other() {
    let mut p = MapPosition::default();
    p.rotate(Fx::from_ratio(1, 5), Fx::from_ratio(2, 5));
    let r = p.rotation();
    let ri = p.inverse_rotation();
    for row in 0..3 {
        for col in 0..3 {
            let mut acc = 0.0;
            for t in 0..3 {
                acc += val(r[row * 4 + t]) * val(ri[t * 4 + col]);
            }
            let expected = if row == col { 1.0 } else { 0.0 };
            assert!((acc - expected).abs() < 1e-3, "entry {} {}: {}", row, col, acc);
        }
    }
}

#[test]
fn default_control_drives_the_viewport() {
    let d = MapEventDispatcher::new(MapControlSettings::default());
    let mut state = ControlState::default();
    let mut store = HandlerStore::new();
    let mut nav = DefaultMapControl::new(standard_position());

    assert!(!nav.is_attached());
    nav.attach(&mut store);
    assert!(nav.is_attached());

    let wheel = InputEvent::MouseWheel { delta: ScrollDelta::LineDelta(1000) };
    d.handle_event(&mut state, &mut store, &mut nav, &wheel, 1000);
    assert!((val(nav.position.resolution()) - 2.0 / 1.21).abs() < 1e-6);

    let press = InputEvent::MouseInput { button: MouseButton::Left, state: ElementState::Pressed };
    d.handle_event(&mut state, &mut store, &mut nav, &press, 1100);
    let before = nav.position.center();
    let moved = InputEvent::CursorMoved { x: 30, y: 40 };
    d.handle_event(&mut state, &mut store, &mut nav, &moved, 1100);
    let after = nav.position.center();
    assert!(val(after.x) < val(before.x));
    assert!(val(after.y) > val(before.y));

    nav.detach(&mut store);
    assert!(!nav.is_attached());
    assert_eq!(0, store.get_store(map_core::EventKind::Drag).len());
    assert_eq!(0, store.get_store(map_core::EventKind::Zoom).len());

    let r = nav.position.resolution();
    d.handle_event(&mut state, &mut store, &mut nav, &wheel, 5000);
    assert_eq!(r, nav.position.resolution());
}
