use canvas2d::camera::{Camera, Vec2};
use canvas2d::instance::Instances;
use canvas2d::rat::Rat;
use canvas2d::state::{InputEvent, MouseButton, ScrollDelta, State};
use canvas2d::weighted::{Weight, WeightedCamera};

fn r(num: i64, den: i64) -> Rat {
    Rat::new(num, den).unwrap()
}

fn ri(i: i64) -> Rat {
    Rat::from_int(i)
}

#[test]
fn rat_reduction_and_comparison() {
    assert!(r(2, 4).same_value(&r(1, 2)));
    assert!(r(-6, 8).same_value(&r(-3, 4)));
    assert!(r(1, 3).lt(&r(1, 2)));
    assert!(r(1, 2).le(&r(1, 2)));
    assert!(!r(1, 2).lt(&r(1, 2)));
    assert!(Rat::new(1, 0).is_none());
    assert!(Rat::new(1, -2).is_none());
    let sum = r(1, 3).checked_add(&r(1, 6)).unwrap();
    assert!(sum.same_value(&r(1, 2)));
    let prod = r(2, 3).checked_mul(&r(3, 4)).unwrap();
    assert!(prod.same_value(&r(1, 2)));
    let quot = r(1, 2).checked_div(&ri(-2)).unwrap();
    assert!(quot.same_value(&r(-1, 4)));
    assert!(ri(5).neg().same_value(&ri(-5)));
    let clamped = ri(20).clamp(&r(1, 2), &ri(10));
    assert!(clamped.same_value(&ri(10)));
}

#[test]
fn center_cursor_unprojects_to_center() {
    // Limits (0, 800, 600, 0), cursor at the pixel center (400, 300).
    let cam = Camera::new(800, 600);
    let pos = Vec2 { x: ri(400), y: ri(300) };
    let w0 = cam.screen_to_world(&pos, 800, 600).unwrap();
    assert!(w0.x.same_value(&ri(400)));
    assert!(w0.y.same_value(&ri(300)));
}

#[test]
fn zoom_at_center_shrinks_symmetrically() {
    // Scroll +1 with sensitivity 1/500 takes the zoom to 499/500; the new
    // limits must be symmetric about the anchor (400, 300).
    let mut cam = Camera::new(800, 600);
    let anchor = Vec2 { x: ri(400), y: ri(300) };
    cam.apply_zoom(&ri(1), &anchor, 800, 600).unwrap();
    assert!(cam.zoom.same_value(&r(499, 500)));
    assert!(cam.limits.left.same_value(&r(4, 5)));
    assert!(cam.limits.right.same_value(&r(3996, 5)));
    assert!(cam.limits.top.same_value(&r(3, 5)));
    assert!(cam.limits.bottom.same_value(&r(2997, 5)));
    let left_gap = ri(400).checked_sub(&cam.limits.left).unwrap();
    let right_gap = cam.limits.right.checked_sub(&ri(400)).unwrap();
    assert!(left_gap.same_value(&right_gap));
    let top_gap = ri(300).checked_sub(&cam.limits.top).unwrap();
    let bottom_gap = cam.limits.bottom.checked_sub(&ri(300)).unwrap();
    assert!(top_gap.same_value(&bottom_gap));
}

#[test]
fn zoom_keeps_cursor_world_point() {
    let mut cam = Camera::new(800, 600);
    let anchor = Vec2 { x: ri(137), y: ri(41) };
    let before = cam.screen_to_world(&anchor, 800, 600).unwrap();
    cam.apply_zoom(&r(-3, 2), &anchor, 800, 600).unwrap();
    let after = cam.screen_to_world(&anchor, 800, 600).unwrap();
    assert!(before.x.same_value(&after.x));
    assert!(before.y.same_value(&after.y));
}

#[test]
fn repeated_zoom_stays_clamped() {
    let mut cam = Camera::new(800, 600);
    let anchor = Vec2 { x: ri(400), y: ri(300) };
    for _ in 0..40 {
        let _ = cam.apply_zoom(&ri(100), &anchor, 800, 600);
        assert!(cam.config.min_zoom.le(&cam.zoom));
        assert!(cam.zoom.le(&cam.config.max_zoom));
    }
    assert!(cam.zoom.same_value(&r(1, 2)));
    for _ in 0..60 {
        let _ = cam.apply_zoom(&ri(-100), &anchor, 800, 600);
        assert!(cam.config.min_zoom.le(&cam.zoom));
        assert!(cam.zoom.le(&cam.config.max_zoom));
    }
    assert!(cam.zoom.same_value(&ri(10)));
}

#[test]
fn round_trip_projection() {
    let cam = Camera::new(800, 600);
    let world = Vec2 { x: r(123, 7), y: r(4567, 11) };
    let screen = cam.world_to_screen(&world, 800, 600).unwrap();
    let back = cam.screen_to_world(&screen, 800, 600).unwrap();
    assert!(back.x.same_value(&world.x));
    assert!(back.y.same_value(&world.y));
}

#[test]
fn pan_sums_like_one_pan() {
    let mut one = Camera::new(800, 600);
    let mut two = Camera::new(800, 600);
    one.apply_pan(&Vec2 { x: ri(10), y: ri(-4) }).unwrap();
    one.apply_pan(&Vec2 { x: ri(-3), y: ri(9) }).unwrap();
    two.apply_pan(&Vec2 { x: ri(7), y: ri(5) }).unwrap();
    assert!(one.limits.left.same_value(&two.limits.left));
    assert!(one.limits.right.same_value(&two.limits.right));
    assert!(one.limits.top.same_value(&two.limits.top));
    assert!(one.limits.bottom.same_value(&two.limits.bottom));
    // At zoom 1, panning by (7, 5) shifts every edge by exactly that much.
    assert!(two.limits.left.same_value(&ri(7)));
    assert!(two.limits.right.same_value(&ri(807)));
    assert!(two.limits.top.same_value(&ri(5)));
    assert!(two.limits.bottom.same_value(&ri(605)));
}

#[test]
fn projection_matrix_entries() {
    let cam = Camera::new(800, 600);
    let m = cam.build_view_projection_matrix().unwrap();
    // 2/(right-left) and 2/(top-bottom), then the translations.
    assert!(m.cols[0][0].same_value(&r(1, 400)));
    assert!(m.cols[1][1].same_value(&r(-1, 300)));
    assert!(m.cols[3][0].same_value(&ri(-1)));
    assert!(m.cols[3][1].same_value(&ri(1)));
    assert!(m.cols[2][2].same_value(&ri(1)));
    assert!(m.cols[3][3].same_value(&ri(1)));
    assert!(m.cols[0][1].same_value(&ri(0)));
}

#[test]
fn instances_remove_shifts_indices() {
    let mut inst: Instances<u32> = Instances::new();
    inst.add(10);
    inst.add(20);
    inst.add(30);
    assert_eq!(inst.length(), 3);
    assert!(inst.remove(1).is_ok());
    assert_eq!(inst.length(), 2);
    assert_eq!(inst.get(0), Some(&10));
    assert_eq!(inst.get(1), Some(&30));
    assert!(inst.remove(1).is_ok());
    assert_eq!(inst.length(), 1);
    assert_eq!(inst.get(0), Some(&10));
    assert!(inst.remove(1).is_err());
    assert_eq!(inst.length(), 1);
}

#[test]
fn weighted_edges_follow_their_own_weights() {
    let base = WeightedCamera {
        width: 800,
        height: 600,
        offset: Vec2 { x: ri(100), y: ri(50) },
        zoom: ri(2),
        weight: Weight { top: r(1, 2), left: r(1, 4), right: r(1, 2), bottom: ri(1) },
        config: Camera::new(800, 600).config,
    };
    let lim = base.build_projection_limits().unwrap();
    // left = 100 - 800 * 1/4 * 2, right = 100 + 800 * 1/2 * 2.
    assert!(lim.left.same_value(&ri(-300)));
    assert!(lim.right.same_value(&ri(900)));
    assert!(lim.top.same_value(&ri(-550)));
    assert!(lim.bottom.same_value(&ri(1250)));

    // Changing only weight.right moves only the right edge.
    let mut other = base;
    other.weight.right = r(3, 4);
    let lim2 = other.build_projection_limits().unwrap();
    assert!(lim2.left.same_value(&lim.left));
    assert!(lim2.top.same_value(&lim.top));
    assert!(lim2.bottom.same_value(&lim.bottom));
    assert!(lim2.right.same_value(&ri(1300)));
    assert!(!lim2.right.same_value(&lim.right));
}

#[test]
fn weighted_pan_moves_offset_only() {
    let mut cam = WeightedCamera {
        width: 800,
        height: 600,
        offset: Vec2 { x: ri(0), y: ri(0) },
        zoom: ri(1),
        weight: Weight { top: ri(1), left: ri(1), right: ri(1), bottom: ri(1) },
        config: Camera::new(800, 600).config,
    };
    cam.apply_pan(&Vec2 { x: r(5, 2), y: ri(-7) }).unwrap();
    assert!(cam.offset.x.same_value(&r(5, 2)));
    assert!(cam.offset.y.same_value(&ri(-7)));
    assert!(cam.zoom.same_value(&ri(1)));
    cam.resize(0, 100);
    assert_eq!(cam.width, 800);
    cam.resize(1024, 768);
    assert_eq!(cam.width, 1024);
    assert_eq!(cam.height, 768);
}

#[test]
fn router_consumes_pointer_events() {
    let mut st = State::new(800, 600);

    // Unknown events fall through and recolor the background.
    assert!(!st.input(&InputEvent::Other));
    assert!(st.clear_color.b.same_value(&r(1, 10)));

    // Moving without the button held only tracks the cursor.
    assert!(st.input(&InputEvent::CursorMoved { pos: Vec2 { x: ri(400), y: ri(300) } }));
    assert!(st.camera.limits.left.same_value(&ri(0)));

    // Press, drag, release: the viewport pans by (last - current) * zoom.
    assert!(st.input(&InputEvent::MouseInput { button: MouseButton::Left, pressed: true }));
    assert!(st.input(&InputEvent::CursorMoved { pos: Vec2 { x: ri(390), y: ri(304) } }));
    assert!(st.camera.limits.left.same_value(&ri(10)));
    assert!(st.camera.limits.right.same_value(&ri(810)));
    assert!(st.camera.limits.top.same_value(&ri(-4)));
    assert!(st.camera.limits.bottom.same_value(&ri(596)));
    assert!(st.input(&InputEvent::MouseInput { button: MouseButton::Left, pressed: false }));
    assert!(st.input(&InputEvent::CursorMoved { pos: Vec2 { x: ri(0), y: ri(0) } }));
    assert!(st.camera.limits.left.same_value(&ri(10)));

    // A right-button press does not arm the drag.
    assert!(st.input(&InputEvent::MouseInput { button: MouseButton::Right, pressed: true }));
    assert!(!st.mouse_pressed);

    // A pixel scroll zooms about the cached cursor position and is clamped.
    let before = st.camera.screen_to_world(&st.camera.mouse_pos, 800, 600).unwrap();
    assert!(st.input(&InputEvent::MouseWheel {
        delta: ScrollDelta::Pixel { x: ri(0), y: ri(5) },
    }));
    assert!(st.camera.zoom.same_value(&r(99, 100)));
    let after = st.camera.screen_to_world(&st.camera.mouse_pos, 800, 600).unwrap();
    assert!(before.x.same_value(&after.x));
    assert!(before.y.same_value(&after.y));

    // Line deltas are consumed but change nothing.
    assert!(st.input(&InputEvent::MouseWheel {
        delta: ScrollDelta::Line { x: ri(0), y: ri(1) },
    }));
    assert!(st.camera.zoom.same_value(&r(99, 100)));

    // A resize to zero is a no-op; a real resize keeps the limits.
    st.resize(0, 50);
    assert_eq!(st.size, (800, 600));
    st.resize(1024, 768);
    assert_eq!(st.size, (1024, 768));
    // The zoom at cursor (0, 0) kept the left edge and pulled the right edge
    // in by one percent of the span: 10 + 800 * 99/100.
    assert!(st.camera.limits.left.same_value(&ri(10)));
    assert!(st.camera.limits.right.same_value(&ri(802)));
}

#[test]
fn two_drags_pan_like_one() {
    // Same start, button held: two cursor moves versus one move to the same
    // final position end with the same limits.
    let mut two_steps = State::new(800, 600);
    let mut one_step = State::new(800, 600);
    assert!(two_steps.input(&InputEvent::MouseInput { button: MouseButton::Left, pressed: true }));
    assert!(one_step.input(&InputEvent::MouseInput { button: MouseButton::Left, pressed: true }));

    assert!(two_steps.input(&InputEvent::CursorMoved { pos: Vec2 { x: ri(10), y: ri(4) } }));
    assert!(two_steps.input(&InputEvent::CursorMoved { pos: Vec2 { x: ri(25), y: ri(1) } }));
    assert!(one_step.input(&InputEvent::CursorMoved { pos: Vec2 { x: ri(25), y: ri(1) } }));

    assert!(two_steps.camera.limits.left.same_value(&one_step.camera.limits.left));
    assert!(two_steps.camera.limits.right.same_value(&one_step.camera.limits.right));
    assert!(two_steps.camera.limits.top.same_value(&one_step.camera.limits.top));
    assert!(two_steps.camera.limits.bottom.same_value(&one_step.camera.limits.bottom));
    // The drag is (last - current) at zoom 1: both end shifted by (-25, -1).
    assert!(one_step.camera.limits.left.same_value(&ri(-25)));
    assert!(one_step.camera.limits.top.same_value(&ri(-1)));
}
