//! The input/event router: translates pointer, button and scroll events into
//! camera mutations, tracks the drag state, and reports whether an event was
//! consumed. The caller (the render loop) refreshes the camera uniform after
//! every consumed event; GPU work stays outside the library.

use vstd::prelude::*;

use crate::camera::{
    lemma_pan_edge_composes, pan_plan, try_sub, zoom_plan, Camera, Vec2,
};
use crate::rat::{
    lemma_q_add_cong, lemma_q_eq_trans, lemma_q_red, lemma_q_sub_chain, lemma_q_wf_ops, q_add,
    q_eq, q_int, q_sub, Qv, Rat,
};

verus! {

/// The pointer button an input event names.
#[derive(Clone, Copy, Debug, PartialEq, Eq, Structural)]
pub enum MouseButton {
    Left,
    Right,
    Middle,
}

/// A scroll amount: precise pixel deltas drive the zoom; line deltas are
/// accepted and ignored, as the original device handling did.
#[derive(Clone, Copy, Debug)]
pub enum ScrollDelta {
    Pixel { x: Rat, y: Rat },
    Line { x: Rat, y: Rat },
}

/// One pointer event, already stripped to plain values.
#[derive(Clone, Copy, Debug)]
pub enum InputEvent {
    MouseWheel { delta: ScrollDelta },
    MouseInput { button: MouseButton, pressed: bool },
    CursorMoved { pos: Vec2 },
    Other,
}

/// An RGBA color with rational components.
#[derive(Clone, Copy, Debug)]
pub struct Color {
    pub r: Rat,
    pub g: Rat,
    pub b: Rat,
    pub a: Rat,
}

/// The color an unhandled event switches the background to.
pub open spec fn fallthrough_color(c: Color) -> bool {
    c.r.q() == (Qv { n: 1, d: 100 }) && c.g.q() == (Qv { n: 1, d: 100 }) && c.b.q() == (Qv {
        n: 1,
        d: 10,
    }) && c.a.q() == q_int(1)
}

/// Whether an event's payload satisfies the scalar invariant; events built
/// from the library's own constructors always do.
pub open spec fn event_wf(e: InputEvent) -> bool {
    match e {
        InputEvent::MouseWheel { delta } => match delta {
            ScrollDelta::Pixel { x, y } => x.inv() && y.inv(),
            ScrollDelta::Line { x, y } => x.inv() && y.inv(),
        },
        InputEvent::CursorMoved { pos } => pos.inv(),
        InputEvent::MouseInput { .. } => true,
        InputEvent::Other => true,
    }
}

/// What a drag from `last` to `pos` does to the camera: pan by the
/// screen-space difference, scaled by the zoom.
pub open spec fn drag_plan(cam: Camera, last: Vec2, pos: Vec2) -> Option<(Qv, Qv, Qv, Qv)> {
    match try_sub(last.x.q(), pos.x.q()) {
        None => None,
        Some(dx) => match try_sub(last.y.q(), pos.y.q()) {
            None => None,
            Some(dy) => pan_plan(cam, dx, dy),
        },
    }
}

/// The application core the event loop mutates: the camera, the drag state,
/// and the clear color.
pub struct State {
    pub size: (u32, u32),
    pub clear_color: Color,
    pub camera: Camera,
    pub last_cursor_position: Vec2,
    pub mouse_pressed: bool,
}

impl State {
    pub open spec fn inv(&self) -> bool {
        &&& self.size.0 >= 1 && self.size.1 >= 1
        &&& self.camera.inv()
        &&& self.last_cursor_position.inv()
        &&& self.clear_color.r.inv() && self.clear_color.g.inv() && self.clear_color.b.inv()
            && self.clear_color.a.inv()
    }

    /// A fresh state: black background, default camera over the full window,
    /// pointer at the origin, button released.
    pub fn new(width: u32, height: u32) -> (s: State)
        requires
            width >= 1,
            height >= 1,
        ensures
            s.inv(),
            s.size == (width, height),
            s.camera.limits.left.q() == q_int(0),
            s.camera.limits.right.q() == q_int(width as int),
            s.camera.limits.bottom.q() == q_int(height as int),
            s.camera.limits.top.q() == q_int(0),
            s.camera.zoom.q() == q_int(1),
            s.camera.mouse_pos.x.q() == q_int(0),
            s.camera.mouse_pos.y.q() == q_int(0),
            s.camera.config.sensitivity.q() == (Qv { n: 1, d: 500 }),
            s.camera.config.min_zoom.q() == (Qv { n: 1, d: 2 }),
            s.camera.config.max_zoom.q() == q_int(10),
            s.last_cursor_position.x.q() == q_int(0),
            s.last_cursor_position.y.q() == q_int(0),
            s.clear_color.r.q() == q_int(0),
            s.clear_color.g.q() == q_int(0),
            s.clear_color.b.q() == q_int(0),
            s.clear_color.a.q() == q_int(1),
            !s.mouse_pressed,
    {
        let zero = Rat::from_int(0);
        let one = Rat::from_int(1);
        let camera = Camera::new(width, height);
        State {
            size: (width, height),
            clear_color: Color { r: zero, g: zero, b: zero, a: one },
            camera,
            last_cursor_position: Vec2 { x: zero, y: zero },
            mouse_pressed: false,
        }
    }

    /// A resize only updates the pixel dimensions; the world-space limits are
    /// deliberately left as they are, so resizing changes the pixel-to-world
    /// density rather than the visible rectangle. A zero dimension is a
    /// no-op, so the projection cannot degenerate.
    pub fn resize(&mut self, new_width: u32, new_height: u32)
        requires
            old(self).inv(),
        ensures
            final(self).inv(),
            new_width >= 1 && new_height >= 1 ==> final(self).size == (new_width, new_height),
            !(new_width >= 1 && new_height >= 1) ==> final(self).size == old(self).size,
            final(self).camera == old(self).camera,
            final(self).clear_color == old(self).clear_color,
            final(self).mouse_pressed == old(self).mouse_pressed,
            final(self).last_cursor_position == old(self).last_cursor_position,
    {
        if new_width >= 1 && new_height >= 1 {
            self.size = (new_width, new_height);
        }
    }

    /// Per-frame bookkeeping; the camera has nothing to advance outside of
    /// input handling.
    pub fn update(&mut self)
        ensures
            *final(self) == *old(self),
    {
    }

    /// Route one event. Returns whether the camera/shape subsystem consumed
    /// it: a pixel scroll zooms about the cached cursor position, a left
    /// button press or release arms or disarms the drag, a cursor move pans
    /// while the drag is armed, and anything else only recolors the
    /// background and falls through.
    pub fn input(&mut self, event: &InputEvent) -> (consumed: bool)
        requires
            old(self).inv(),
            event_wf(*event),
        ensures
            final(self).inv(),
            consumed == !(*event is Other),
            final(self).size == old(self).size,
            final(self).camera.config == old(self).camera.config,
            *event matches InputEvent::Other ==> final(self).camera == old(self).camera && final(self).mouse_pressed == old(self).mouse_pressed && final(self).last_cursor_position == old(self).last_cursor_position && fallthrough_color(final(self).clear_color),
            *event matches InputEvent::MouseInput { button, pressed } ==> final(self).camera == old(self).camera && final(self).clear_color == old(self).clear_color && final(self).last_cursor_position == old(self).last_cursor_position && final(self).mouse_pressed
                == (if button is Left {
                pressed
            } else {
                old(self).mouse_pressed
            }),
            *event matches InputEvent::MouseWheel { delta } ==> final(self).mouse_pressed == old(self).mouse_pressed && final(self).last_cursor_position == old(self).last_cursor_position
                && final(self).clear_color == old(self).clear_color && final(self).camera.mouse_pos
                == old(self).camera.mouse_pos && (match delta {
                ScrollDelta::Pixel { x: _, y } => (match zoom_plan(
                    old(self).camera,
                    y.q(),
                    old(self).camera.mouse_pos,
                    q_int(old(self).size.0 as int),
                    q_int(old(self).size.1 as int),
                ) {
                    Some(p) => final(self).camera.limits.left.q() == p.0 && final(self).camera.limits.right.q() == p.1 && final(self).camera.limits.bottom.q() == p.2
                        && final(self).camera.limits.top.q() == p.3 && final(self).camera.zoom.q()
                        == p.4,
                    None => final(self).camera == old(self).camera,
                }),
                ScrollDelta::Line { .. } => final(self).camera == old(self).camera,
            }),
            *event matches InputEvent::CursorMoved { pos } ==> final(self).clear_color == old(self).clear_color && final(self).camera.mouse_pos == pos && final(self).last_cursor_position == pos && final(self).mouse_pressed == old(self).mouse_pressed
                && final(self).camera.zoom == old(self).camera.zoom && (if !old(self).mouse_pressed {
                final(self).camera.limits == old(self).camera.limits
            } else {
                match drag_plan(old(self).camera, old(self).last_cursor_position, pos) {
                    Some(p) => final(self).camera.limits.left.q() == p.0 && final(self).camera.limits.right.q() == p.1 && final(self).camera.limits.bottom.q() == p.2
                        && final(self).camera.limits.top.q() == p.3,
                    None => final(self).camera.limits == old(self).camera.limits,
                }
            }),
    {
        match *event {
            InputEvent::MouseWheel { delta } => {
                match delta {
                    ScrollDelta::Pixel { x: _, y } => {
                        let anchor = self.camera.mouse_pos;
                        let width = self.size.0;
                        let height = self.size.1;
                        let _ = self.camera.apply_zoom(&y, &anchor, width, height);
                    },
                    ScrollDelta::Line { .. } => {},
                }
                true
            },
            InputEvent::MouseInput { button, pressed } => {
                if button == MouseButton::Left {
                    self.mouse_pressed = pressed;
                }
                true
            },
            InputEvent::CursorMoved { pos } => {
                self.camera.mouse_pos = pos;
                if self.mouse_pressed {
                    let dx = self.last_cursor_position.x.checked_sub(&pos.x);
                    let dy = self.last_cursor_position.y.checked_sub(&pos.y);
                    match (dx, dy) {
                        (Some(dx), Some(dy)) => {
                            let _ = self.camera.apply_pan(&Vec2 { x: dx, y: dy });
                        },
                        _ => {},
                    }
                }
                self.last_cursor_position = pos;
                true
            },
            InputEvent::Other => {
                self.clear_color = Color {
                    r: Rat { num: 1, den: 100 },
                    g: Rat { num: 1, den: 100 },
                    b: Rat { num: 1, den: 10 },
                    a: Rat::from_int(1),
                };
                false
            },
        }
    }
}


/// Two held-button cursor moves pan like one. If the drag from `last` to
/// `p1` applies to a camera, the drag from `p1` to `p2` applies to the
/// resulting camera, and the single drag from `last` to `p2` applies to the
/// original camera, then both paths end on the same four limits, as values.
/// (Each drag applies whenever its checked arithmetic stays in range, which
/// is the only reason a `drag_plan` can be `None`.)
pub proof fn lemma_drags_compose(cam: Camera, cam1: Camera, last: Vec2, p1: Vec2, p2: Vec2)
    requires
        cam.inv(),
        last.inv(),
        p1.inv(),
        p2.inv(),
        drag_plan(cam, last, p1) is Some,
        cam1.zoom == cam.zoom,
        cam1.limits.left.q() == drag_plan(cam, last, p1).unwrap().0,
        cam1.limits.right.q() == drag_plan(cam, last, p1).unwrap().1,
        cam1.limits.bottom.q() == drag_plan(cam, last, p1).unwrap().2,
        cam1.limits.top.q() == drag_plan(cam, last, p1).unwrap().3,
        drag_plan(cam1, p1, p2) is Some,
        drag_plan(cam, last, p2) is Some,
    ensures
        q_eq(drag_plan(cam1, p1, p2).unwrap().0, drag_plan(cam, last, p2).unwrap().0),
        q_eq(drag_plan(cam1, p1, p2).unwrap().1, drag_plan(cam, last, p2).unwrap().1),
        q_eq(drag_plan(cam1, p1, p2).unwrap().2, drag_plan(cam, last, p2).unwrap().2),
        q_eq(drag_plan(cam1, p1, p2).unwrap().3, drag_plan(cam, last, p2).unwrap().3),
{
    let z = cam.zoom.q();
    let d1x = try_sub(last.x.q(), p1.x.q()).unwrap();
    let d1y = try_sub(last.y.q(), p1.y.q()).unwrap();
    let d2x = try_sub(p1.x.q(), p2.x.q()).unwrap();
    let d2y = try_sub(p1.y.q(), p2.y.q()).unwrap();
    let dx = try_sub(last.x.q(), p2.x.q()).unwrap();
    let dy = try_sub(last.y.q(), p2.y.q()).unwrap();
    lemma_q_wf_ops(last.x.q(), p1.x.q());
    lemma_q_red(q_sub(last.x.q(), p1.x.q()));
    lemma_q_wf_ops(last.y.q(), p1.y.q());
    lemma_q_red(q_sub(last.y.q(), p1.y.q()));
    lemma_q_wf_ops(p1.x.q(), p2.x.q());
    lemma_q_red(q_sub(p1.x.q(), p2.x.q()));
    lemma_q_wf_ops(p1.y.q(), p2.y.q());
    lemma_q_red(q_sub(p1.y.q(), p2.y.q()));
    lemma_q_wf_ops(last.x.q(), p2.x.q());
    lemma_q_red(q_sub(last.x.q(), p2.x.q()));
    lemma_q_wf_ops(last.y.q(), p2.y.q());
    lemma_q_red(q_sub(last.y.q(), p2.y.q()));
    // The two step deltas sum to the single delta, on each axis.
    lemma_q_add_cong(d1x, d2x, q_sub(last.x.q(), p1.x.q()), q_sub(p1.x.q(), p2.x.q()));
    lemma_q_sub_chain(last.x.q(), p1.x.q(), p2.x.q());
    lemma_q_wf_ops(q_sub(last.x.q(), p1.x.q()), q_sub(p1.x.q(), p2.x.q()));
    lemma_q_eq_trans(
        q_add(d1x, d2x),
        q_add(q_sub(last.x.q(), p1.x.q()), q_sub(p1.x.q(), p2.x.q())),
        q_sub(last.x.q(), p2.x.q()),
    );
    lemma_q_eq_trans(q_add(d1x, d2x), q_sub(last.x.q(), p2.x.q()), dx);
    lemma_q_add_cong(d1y, d2y, q_sub(last.y.q(), p1.y.q()), q_sub(p1.y.q(), p2.y.q()));
    lemma_q_sub_chain(last.y.q(), p1.y.q(), p2.y.q());
    lemma_q_wf_ops(q_sub(last.y.q(), p1.y.q()), q_sub(p1.y.q(), p2.y.q()));
    lemma_q_eq_trans(
        q_add(d1y, d2y),
        q_add(q_sub(last.y.q(), p1.y.q()), q_sub(p1.y.q(), p2.y.q())),
        q_sub(last.y.q(), p2.y.q()),
    );
    lemma_q_eq_trans(q_add(d1y, d2y), q_sub(last.y.q(), p2.y.q()), dy);
    // Each edge composes.
    lemma_pan_edge_composes(cam.limits.left.q(), d1x, d2x, dx, z);
    lemma_pan_edge_composes(cam.limits.right.q(), d1x, d2x, dx, z);
    lemma_pan_edge_composes(cam.limits.top.q(), d1y, d2y, dy, z);
    lemma_pan_edge_composes(cam.limits.bottom.q(), d1y, d2y, dy, z);
}

} // verus!
