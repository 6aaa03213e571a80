//! The interactive camera: a world-space clip rectangle (`Limits`), a zoom
//! factor clamped to a configured range, and the cached pointer position.
//! Screen space has its origin at the top left with y growing downward; world
//! space is the plane the shapes live in. All operations are exact rational
//! arithmetic; an operation whose result cannot be represented reports that
//! and leaves the camera unchanged.

use vstd::prelude::*;

use crate::rat::{
    lemma_q_add_assoc, lemma_q_add_cong, lemma_q_add_sub_cancel, lemma_q_div_mul_cancel,
    lemma_q_eq_same_sign, lemma_q_eq_trans, lemma_q_mul_add_distrib, lemma_q_mul_assoc,
    lemma_q_mul_cong, lemma_q_mul_sub_distrib, lemma_q_red, lemma_q_sub_cong, lemma_q_sub_of_subs,
    lemma_q_wf_ops, q_add, q_clamp, q_div, q_eq, q_fits, q_int, q_le, q_lt, q_mul, q_neg, q_red, q_sub,
    q_wf, Qv, Rat,
};

verus! {

/// A two-component vector of rationals (a point or a delta).
#[derive(Clone, Copy, Debug)]
pub struct Vec2 {
    pub x: Rat,
    pub y: Rat,
}

impl Vec2 {
    pub open spec fn inv(&self) -> bool {
        self.x.inv() && self.y.inv()
    }
}

/// The four world-space edges of the visible rectangle. `bottom` is
/// numerically greater than `top`: screen y grows downward.
#[derive(Clone, Copy, Debug)]
pub struct Limits<T> {
    pub left: T,
    pub right: T,
    pub bottom: T,
    pub top: T,
}

/// Checked evaluation, as specification: the reduced representative when it
/// fits the `Rat` range, `None` otherwise.
pub open spec fn try_add(a: Qv, b: Qv) -> Option<Qv> {
    if q_fits(q_add(a, b)) {
        Some(q_red(q_add(a, b)))
    } else {
        None
    }
}

pub open spec fn try_sub(a: Qv, b: Qv) -> Option<Qv> {
    if q_fits(q_sub(a, b)) {
        Some(q_red(q_sub(a, b)))
    } else {
        None
    }
}

pub open spec fn try_mul(a: Qv, b: Qv) -> Option<Qv> {
    if q_fits(q_mul(a, b)) {
        Some(q_red(q_mul(a, b)))
    } else {
        None
    }
}

pub open spec fn try_div(a: Qv, b: Qv) -> Option<Qv> {
    if q_fits(q_div(a, b)) {
        Some(q_red(q_div(a, b)))
    } else {
        None
    }
}

/// Where a screen coordinate `s` lands in world space along one axis:
/// `e0 + (s / size) * (e1 - e0)`, with `e0` the edge at pixel `0` and `e1`
/// the edge at pixel `size`.
pub open spec fn axis_world_q(e0: Qv, e1: Qv, s: Qv, size: Qv) -> Qv {
    q_add(e0, q_mul(q_div(s, size), q_sub(e1, e0)))
}

/// The inverse mapping: where a world coordinate `x` lands on the screen
/// along one axis: `((x - e0) / (e1 - e0)) * size`.
pub open spec fn axis_screen_q(e0: Qv, e1: Qv, x: Qv, size: Qv) -> Qv {
    q_mul(q_div(q_sub(x, e0), q_sub(e1, e0)), size)
}

/// One edge after a pan by screen delta `d` at zoom `z`: `e + d * z`.
pub open spec fn pan_edge_q(e: Qv, d: Qv, z: Qv) -> Qv {
    q_add(e, q_mul(d, z))
}

/// One edge after a zoom about the world anchor `w0` with ratio `rho`
/// (new zoom over old): its distance from the anchor scales by `rho`.
pub open spec fn zoom_edge_q(w0: Qv, e: Qv, rho: Qv) -> Qv {
    q_sub(w0, q_mul(q_sub(w0, e), rho))
}

/// The checked-evaluation plan of `axis_world_q`, step for step.
pub open spec fn axis_world_plan(e0: Qv, e1: Qv, s: Qv, size: Qv) -> Option<Qv> {
    match try_sub(e1, e0) {
        None => None,
        Some(span) => match try_div(s, size) {
            None => None,
            Some(frac) => match try_mul(frac, span) {
                None => None,
                Some(off) => try_add(e0, off),
            },
        },
    }
}

/// The checked-evaluation plan of `pan_edge_q`.
pub open spec fn pan_edge_plan(e: Qv, d: Qv, z: Qv) -> Option<Qv> {
    match try_mul(d, z) {
        None => None,
        Some(step) => try_add(e, step),
    }
}

/// The checked-evaluation plan of `zoom_edge_q`.
pub open spec fn zoom_edge_plan(w0: Qv, e: Qv, rho: Qv) -> Option<Qv> {
    match try_sub(w0, e) {
        None => None,
        Some(dist) => match try_mul(dist, rho) {
            None => None,
            Some(scaled) => try_sub(w0, scaled),
        },
    }
}

/// Map a screen coordinate to world space along one axis. Returns exactly
/// what `axis_world_plan` prescribes; any result is the value of
/// `axis_world_q`.
fn axis_world(e0: &Rat, e1: &Rat, s: &Rat, size: &Rat) -> (r: Option<Rat>)
    requires
        e0.inv(),
        e1.inv(),
        s.inv(),
        size.inv(),
        size.num != 0,
    ensures
        (r is Some) == (axis_world_plan(e0.q(), e1.q(), s.q(), size.q()) is Some),
        r matches Some(v) ==> v.inv() && Some(v.q()) == axis_world_plan(
            e0.q(),
            e1.q(),
            s.q(),
            size.q(),
        ) && q_eq(v.q(), axis_world_q(e0.q(), e1.q(), s.q(), size.q())),
{
    let span = match e1.checked_sub(e0) {
        Some(v) => v,
        None => {
            return None;
        },
    };
    let frac = match s.checked_div(size) {
        Some(v) => v,
        None => {
            return None;
        },
    };
    let off = match frac.checked_mul(&span) {
        Some(v) => v,
        None => {
            return None;
        },
    };
    let w = match e0.checked_add(&off) {
        Some(v) => v,
        None => {
            return None;
        },
    };
    proof {
        let ge0 = e0.q();
        let ge1 = e1.q();
        let gs = s.q();
        let gsz = size.q();
        lemma_q_wf_ops(ge1, ge0);
        lemma_q_wf_ops(gs, gsz);
        lemma_q_red(q_sub(ge1, ge0));
        lemma_q_red(q_div(gs, gsz));
        lemma_q_mul_cong(frac.q(), span.q(), q_div(gs, gsz), q_sub(ge1, ge0));
        lemma_q_wf_ops(frac.q(), span.q());
        lemma_q_red(q_mul(frac.q(), span.q()));
        lemma_q_eq_trans(
            off.q(),
            q_mul(frac.q(), span.q()),
            q_mul(q_div(gs, gsz), q_sub(ge1, ge0)),
        );
        lemma_q_add_cong(ge0, off.q(), ge0, q_mul(q_div(gs, gsz), q_sub(ge1, ge0)));
        lemma_q_wf_ops(ge0, off.q());
        lemma_q_red(q_add(ge0, off.q()));
        lemma_q_eq_trans(
            w.q(),
            q_add(ge0, off.q()),
            axis_world_q(ge0, ge1, gs, gsz),
        );
    }
    Some(w)
}

/// One edge of a pan. Returns exactly what `pan_edge_plan` prescribes; any
/// result is the value of `pan_edge_q`.
fn pan_edge(e: &Rat, d: &Rat, z: &Rat) -> (r: Option<Rat>)
    requires
        e.inv(),
        d.inv(),
        z.inv(),
    ensures
        (r is Some) == (pan_edge_plan(e.q(), d.q(), z.q()) is Some),
        r matches Some(v) ==> v.inv() && Some(v.q()) == pan_edge_plan(e.q(), d.q(), z.q())
            && q_eq(v.q(), pan_edge_q(e.q(), d.q(), z.q())),
{
    let step = match d.checked_mul(z) {
        Some(v) => v,
        None => {
            return None;
        },
    };
    let moved = match e.checked_add(&step) {
        Some(v) => v,
        None => {
            return None;
        },
    };
    proof {
        lemma_q_wf_ops(d.q(), z.q());
        lemma_q_red(q_mul(d.q(), z.q()));
        lemma_q_add_cong(e.q(), step.q(), e.q(), q_mul(d.q(), z.q()));
        lemma_q_wf_ops(e.q(), step.q());
        lemma_q_red(q_add(e.q(), step.q()));
        lemma_q_eq_trans(
            moved.q(),
            q_add(e.q(), step.q()),
            pan_edge_q(e.q(), d.q(), z.q()),
        );
    }
    Some(moved)
}

/// One edge of a zoom about anchor `w0`. Returns exactly what
/// `zoom_edge_plan` prescribes; any result is the value of `zoom_edge_q`.
fn zoom_edge(w0: &Rat, e: &Rat, rho: &Rat) -> (r: Option<Rat>)
    requires
        w0.inv(),
        e.inv(),
        rho.inv(),
    ensures
        (r is Some) == (zoom_edge_plan(w0.q(), e.q(), rho.q()) is Some),
        r matches Some(v) ==> v.inv() && Some(v.q()) == zoom_edge_plan(w0.q(), e.q(), rho.q())
            && q_eq(v.q(), zoom_edge_q(w0.q(), e.q(), rho.q())),
{
    let dist = match w0.checked_sub(e) {
        Some(v) => v,
        None => {
            return None;
        },
    };
    let scaled = match dist.checked_mul(rho) {
        Some(v) => v,
        None => {
            return None;
        },
    };
    let moved = match w0.checked_sub(&scaled) {
        Some(v) => v,
        None => {
            return None;
        },
    };
    proof {
        lemma_q_wf_ops(w0.q(), e.q());
        lemma_q_red(q_sub(w0.q(), e.q()));
        lemma_q_mul_cong(dist.q(), rho.q(), q_sub(w0.q(), e.q()), rho.q());
        lemma_q_wf_ops(dist.q(), rho.q());
        lemma_q_red(q_mul(dist.q(), rho.q()));
        lemma_q_eq_trans(
            scaled.q(),
            q_mul(dist.q(), rho.q()),
            q_mul(q_sub(w0.q(), e.q()), rho.q()),
        );
        lemma_q_sub_cong(w0.q(), scaled.q(), w0.q(), q_mul(q_sub(w0.q(), e.q()), rho.q()));
        lemma_q_wf_ops(w0.q(), scaled.q());
        lemma_q_red(q_sub(w0.q(), scaled.q()));
        lemma_q_eq_trans(
            moved.q(),
            q_sub(w0.q(), scaled.q()),
            zoom_edge_q(w0.q(), e.q(), rho.q()),
        );
    }
    Some(moved)
}

/// Map a world coordinate to the screen along one axis. Requires an axis of
/// positive extent; any result is the value of `axis_screen_q`.
fn axis_screen(e0: &Rat, e1: &Rat, x: &Rat, size: &Rat) -> (r: Option<Rat>)
    requires
        e0.inv(),
        e1.inv(),
        x.inv(),
        size.inv(),
        q_lt(e0.q(), e1.q()),
    ensures
        (r is Some) == (axis_screen_plan(e0.q(), e1.q(), x.q(), size.q()) is Some),
        r matches Some(v) ==> v.inv() && Some(v.q()) == axis_screen_plan(
            e0.q(),
            e1.q(),
            x.q(),
            size.q(),
        ) && q_eq(v.q(), axis_screen_q(e0.q(), e1.q(), x.q(), size.q())),
{
    let dx = match x.checked_sub(e0) {
        Some(v) => v,
        None => {
            return None;
        },
    };
    let span = match e1.checked_sub(e0) {
        Some(v) => v,
        None => {
            return None;
        },
    };
    proof {
        lemma_q_wf_ops(e1.q(), e0.q());
        lemma_q_red(q_sub(e1.q(), e0.q()));
        lemma_q_eq_same_sign(span.q(), q_sub(e1.q(), e0.q()));
    }
    let frac = match dx.checked_div(&span) {
        Some(v) => v,
        None => {
            return None;
        },
    };
    let sp = match frac.checked_mul(size) {
        Some(v) => v,
        None => {
            return None;
        },
    };
    proof {
        lemma_q_wf_ops(x.q(), e0.q());
        lemma_q_red(q_sub(x.q(), e0.q()));
        lemma_q_div_cong_use(dx.q(), span.q(), q_sub(x.q(), e0.q()), q_sub(e1.q(), e0.q()));
        lemma_q_wf_ops(dx.q(), span.q());
        lemma_q_red(q_div(dx.q(), span.q()));
        lemma_q_eq_trans(
            frac.q(),
            q_div(dx.q(), span.q()),
            q_div(q_sub(x.q(), e0.q()), q_sub(e1.q(), e0.q())),
        );
        lemma_q_mul_cong(
            frac.q(),
            size.q(),
            q_div(q_sub(x.q(), e0.q()), q_sub(e1.q(), e0.q())),
            size.q(),
        );
        lemma_q_wf_ops(frac.q(), size.q());
        lemma_q_red(q_mul(frac.q(), size.q()));
        lemma_q_eq_trans(
            sp.q(),
            q_mul(frac.q(), size.q()),
            axis_screen_q(e0.q(), e1.q(), x.q(), size.q()),
        );
    }
    Some(sp)
}

/// The checked-evaluation plan of `axis_screen_q`.
pub open spec fn axis_screen_plan(e0: Qv, e1: Qv, x: Qv, size: Qv) -> Option<Qv> {
    match try_sub(x, e0) {
        None => None,
        Some(dx) => match try_sub(e1, e0) {
            None => None,
            Some(span) => match try_div(dx, span) {
                None => None,
                Some(frac) => try_mul(frac, size),
            },
        },
    }
}

/// Division congruence, with the divisor nonzero on both sides.
proof fn lemma_q_div_cong_use(a: Qv, b: Qv, x: Qv, y: Qv)
    requires
        q_wf(a),
        q_wf(b),
        q_wf(x),
        q_wf(y),
        q_eq(a, x),
        q_eq(b, y),
        b.n != 0,
    ensures
        q_eq(q_div(a, b), q_div(x, y)),
{
    crate::rat::lemma_q_div_cong(a, b, x, y);
}

/// Addition commutes, as representatives.
proof fn lemma_q_add_comm(a: Qv, b: Qv)
    ensures
        q_add(a, b) == q_add(b, a),
{
    vstd::arithmetic::mul::lemma_mul_is_commutative(a.d, b.d);
}

/// The zoom configuration: scroll sensitivity and the closed range the zoom
/// factor is clamped into.
#[derive(Clone, Copy, Debug)]
pub struct ZoomConfig {
    pub sensitivity: Rat,
    pub min_zoom: Rat,
    pub max_zoom: Rat,
}

impl ZoomConfig {
    pub open spec fn inv(&self) -> bool {
        &&& self.sensitivity.inv()
        &&& self.min_zoom.inv()
        &&& self.max_zoom.inv()
        &&& q_lt(q_int(0), self.min_zoom.q())
        &&& q_le(self.min_zoom.q(), self.max_zoom.q())
    }
}

/// The reported failure of a camera operation whose exact result cannot be
/// represented: the camera is left unchanged.
#[derive(Clone, Copy, Debug, PartialEq, Eq, Structural)]
pub struct OutOfRange;

/// The camera: visible world rectangle, clamped zoom factor, and the cached
/// screen-space pointer position.
#[derive(Clone, Copy, Debug)]
pub struct Camera {
    pub mouse_pos: Vec2,
    pub limits: Limits<Rat>,
    pub zoom: Rat,
    pub config: ZoomConfig,
}

impl Camera {
    /// The camera invariant: a non-degenerate rectangle (left of right, top
    /// above bottom in the y-down convention) and a zoom inside the
    /// configured positive range.
    pub open spec fn inv(&self) -> bool {
        &&& self.mouse_pos.inv()
        &&& self.limits.left.inv() && self.limits.right.inv() && self.limits.bottom.inv()
            && self.limits.top.inv()
        &&& self.zoom.inv()
        &&& self.config.inv()
        &&& q_lt(self.limits.left.q(), self.limits.right.q())
        &&& q_lt(self.limits.top.q(), self.limits.bottom.q())
        &&& q_le(self.config.min_zoom.q(), self.zoom.q())
        &&& q_le(self.zoom.q(), self.config.max_zoom.q())
    }

    /// A camera looking at the world rectangle `(0, width) x (0, height)` at
    /// zoom `1`, with the default configuration: sensitivity `1/500`, zoom
    /// clamped into `[1/2, 10]`.
    pub fn new(width: u32, height: u32) -> (c: Camera)
        requires
            width >= 1,
            height >= 1,
        ensures
            c.inv(),
            c.limits.left.q() == q_int(0),
            c.limits.right.q() == q_int(width as int),
            c.limits.bottom.q() == q_int(height as int),
            c.limits.top.q() == q_int(0),
            c.zoom.q() == q_int(1),
            c.mouse_pos.x.q() == q_int(0),
            c.mouse_pos.y.q() == q_int(0),
            c.config.sensitivity.q() == (Qv { n: 1, d: 500 }),
            c.config.min_zoom.q() == (Qv { n: 1, d: 2 }),
            c.config.max_zoom.q() == q_int(10),
    {
        let zero = Rat::from_int(0);
        Camera {
            mouse_pos: Vec2 { x: zero, y: zero },
            limits: Limits {
                left: zero,
                right: Rat::from_int(width as i64),
                bottom: Rat::from_int(height as i64),
                top: zero,
            },
            zoom: Rat::from_int(1),
            config: ZoomConfig {
                sensitivity: Rat { num: 1, den: 500 },
                min_zoom: Rat { num: 1, den: 2 },
                max_zoom: Rat::from_int(10),
            },
        }
    }

    /// Unproject a screen position into world space, with the current limits
    /// and the given viewport size in pixels. Succeeds exactly as the two
    /// axis plans do; the result is the value of `axis_world_q` on each axis.
    pub fn screen_to_world(&self, pos: &Vec2, width: u32, height: u32) -> (r: Option<Vec2>)
        requires
            self.inv(),
            pos.inv(),
            width >= 1,
            height >= 1,
        ensures
            (r is Some) == (axis_world_plan(
                self.limits.left.q(),
                self.limits.right.q(),
                pos.x.q(),
                q_int(width as int),
            ) is Some && axis_world_plan(
                self.limits.top.q(),
                self.limits.bottom.q(),
                pos.y.q(),
                q_int(height as int),
            ) is Some),
            r matches Some(v) ==> v.inv() && q_eq(
                v.x.q(),
                axis_world_q(
                    self.limits.left.q(),
                    self.limits.right.q(),
                    pos.x.q(),
                    q_int(width as int),
                ),
            ) && q_eq(
                v.y.q(),
                axis_world_q(
                    self.limits.top.q(),
                    self.limits.bottom.q(),
                    pos.y.q(),
                    q_int(height as int),
                ),
            ),
    {
        let w = Rat::from_int(width as i64);
        let h = Rat::from_int(height as i64);
        let x = match axis_world(&self.limits.left, &self.limits.right, &pos.x, &w) {
            Some(v) => v,
            None => {
                return None;
            },
        };
        let y = match axis_world(&self.limits.top, &self.limits.bottom, &pos.y, &h) {
            Some(v) => v,
            None => {
                return None;
            },
        };
        Some(Vec2 { x, y })
    }

    /// Project a world position onto the screen: the inverse of
    /// `screen_to_world` (`lemma_round_trip`).
    pub fn world_to_screen(&self, pos: &Vec2, width: u32, height: u32) -> (r: Option<Vec2>)
        requires
            self.inv(),
            pos.inv(),
            width >= 1,
            height >= 1,
        ensures
            (r is Some) == (axis_screen_plan(
                self.limits.left.q(),
                self.limits.right.q(),
                pos.x.q(),
                q_int(width as int),
            ) is Some && axis_screen_plan(
                self.limits.top.q(),
                self.limits.bottom.q(),
                pos.y.q(),
                q_int(height as int),
            ) is Some),
            r matches Some(v) ==> v.inv() && q_eq(
                v.x.q(),
                axis_screen_q(
                    self.limits.left.q(),
                    self.limits.right.q(),
                    pos.x.q(),
                    q_int(width as int),
                ),
            ) && q_eq(
                v.y.q(),
                axis_screen_q(
                    self.limits.top.q(),
                    self.limits.bottom.q(),
                    pos.y.q(),
                    q_int(height as int),
                ),
            ),
    {
        let w = Rat::from_int(width as i64);
        let h = Rat::from_int(height as i64);
        let x = match axis_screen(&self.limits.left, &self.limits.right, &pos.x, &w) {
            Some(v) => v,
            None => {
                return None;
            },
        };
        let y = match axis_screen(&self.limits.top, &self.limits.bottom, &pos.y, &h) {
            Some(v) => v,
            None => {
                return None;
            },
        };
        Some(Vec2 { x, y })
    }

    /// Where the cached pointer position lies in world space. Succeeds
    /// exactly when the two axis plans do (so always, short of the checked
    /// arithmetic leaving the representable range).
    pub fn get_absolute_mouse_pos(&self, width: u32, height: u32) -> (r: Option<Vec2>)
        requires
            self.inv(),
            width >= 1,
            height >= 1,
        ensures
            (r is Some) == (axis_world_plan(
                self.limits.left.q(),
                self.limits.right.q(),
                self.mouse_pos.x.q(),
                q_int(width as int),
            ) is Some && axis_world_plan(
                self.limits.top.q(),
                self.limits.bottom.q(),
                self.mouse_pos.y.q(),
                q_int(height as int),
            ) is Some),
            r matches Some(v) ==> v.inv() && q_eq(
                v.x.q(),
                axis_world_q(
                    self.limits.left.q(),
                    self.limits.right.q(),
                    self.mouse_pos.x.q(),
                    q_int(width as int),
                ),
            ) && q_eq(
                v.y.q(),
                axis_world_q(
                    self.limits.top.q(),
                    self.limits.bottom.q(),
                    self.mouse_pos.y.q(),
                    q_int(height as int),
                ),
            ),
    {
        let pos = self.mouse_pos;
        self.screen_to_world(&pos, width, height)
    }
}

/// Cursor-anchored zoom keeps the anchor fixed: along one axis with edges
/// `e0`, `e1` and viewport extent `size`, let `w0` be the world point under
/// screen coordinate `s`. After both edges move so that their distance to
/// `w0` scales by any factor `rho`, the world point under `s` is still `w0`.
pub proof fn lemma_zoom_anchors(e0: Qv, e1: Qv, s: Qv, size: Qv, rho: Qv)
    requires
        q_wf(e0),
        q_wf(e1),
        q_wf(s),
        q_wf(size),
        q_wf(rho),
        size.n != 0,
    ensures
        q_eq(
            axis_world_q(
                zoom_edge_q(axis_world_q(e0, e1, s, size), e0, rho),
                zoom_edge_q(axis_world_q(e0, e1, s, size), e1, rho),
                s,
                size,
            ),
            axis_world_q(e0, e1, s, size),
        ),
{
    let frac = q_div(s, size);
    let span = q_sub(e1, e0);
    let u = q_mul(frac, span);
    let w0 = q_add(e0, u);
    let xx = q_sub(w0, e0);
    let yy = q_sub(w0, e1);
    let aa = q_mul(xx, rho);
    let bb = q_mul(yy, rho);
    let e0p = q_sub(w0, aa);
    let e1p = q_sub(w0, bb);
    lemma_q_wf_ops(s, size);
    lemma_q_wf_ops(e1, e0);
    lemma_q_wf_ops(frac, span);
    lemma_q_wf_ops(e0, u);
    lemma_q_wf_ops(w0, e0);
    lemma_q_wf_ops(w0, e1);
    lemma_q_wf_ops(xx, rho);
    lemma_q_wf_ops(yy, rho);
    lemma_q_wf_ops(w0, aa);
    lemma_q_wf_ops(w0, bb);
    lemma_q_wf_ops(e1p, e0p);
    lemma_q_wf_ops(xx, yy);
    lemma_q_wf_ops(q_sub(xx, yy), rho);
    lemma_q_wf_ops(span, rho);
    lemma_q_wf_ops(aa, bb);
    lemma_q_wf_ops(u, rho);
    lemma_q_wf_ops(e0p, aa);
    // The new span is the old span scaled by rho.
    lemma_q_sub_of_subs(w0, bb, aa);
    lemma_q_mul_sub_distrib(xx, yy, rho);
    lemma_q_sub_of_subs(w0, e0, e1);
    lemma_q_mul_cong(q_sub(xx, yy), rho, span, rho);
    lemma_q_eq_trans(q_sub(e1p, e0p), q_sub(aa, bb), q_mul(q_sub(xx, yy), rho));
    lemma_q_eq_trans(q_sub(e1p, e0p), q_mul(q_sub(xx, yy), rho), q_mul(span, rho));
    // Pull rho out of the offset term.
    lemma_q_mul_cong(frac, q_sub(e1p, e0p), frac, q_mul(span, rho));
    lemma_q_mul_assoc(frac, span, rho);
    lemma_q_wf_ops(frac, q_mul(span, rho));
    lemma_q_eq_trans(q_mul(frac, q_sub(e1p, e0p)), q_mul(frac, q_mul(span, rho)), q_mul(u, rho));
    // The distance from w0 to e0 is exactly the offset u, so aa is u * rho.
    lemma_q_add_sub_cancel(e0, u);
    lemma_q_mul_cong(xx, rho, u, rho);
    lemma_q_eq_trans(q_mul(frac, q_sub(e1p, e0p)), q_mul(u, rho), aa);
    // Both terms of the result cancel against w0.
    lemma_q_add_cong(e0p, q_mul(frac, q_sub(e1p, e0p)), e0p, aa);
    lemma_q_add_sub_cancel(w0, aa);
    lemma_q_eq_trans(q_add(e0p, q_mul(frac, q_sub(e1p, e0p))), q_add(e0p, aa), w0);
}

/// Projecting a world point and unprojecting the result returns the point:
/// along an axis of positive extent, `axis_world_q` inverts `axis_screen_q`.
pub proof fn lemma_round_trip(e0: Qv, e1: Qv, x: Qv, size: Qv)
    requires
        q_wf(e0),
        q_wf(e1),
        q_wf(x),
        q_wf(size),
        q_lt(e0, e1),
        size.n != 0,
    ensures
        q_eq(axis_world_q(e0, e1, axis_screen_q(e0, e1, x, size), size), x),
{
    let span = q_sub(e1, e0);
    let t = q_div(q_sub(x, e0), span);
    let s = q_mul(t, size);
    let frac = q_div(s, size);
    lemma_q_wf_ops(e1, e0);
    lemma_q_wf_ops(x, e0);
    lemma_q_wf_ops(q_sub(x, e0), span);
    lemma_q_wf_ops(t, size);
    lemma_q_wf_ops(s, size);
    lemma_q_wf_ops(t, span);
    lemma_q_wf_ops(frac, span);
    lemma_q_wf_ops(e0, q_sub(x, e0));
    // frac recovers t.
    lemma_q_div_mul_cancel(t, size);
    // t times the span recovers x - e0.
    lemma_q_div_mul_cancel(q_sub(x, e0), span);
    lemma_q_mul_cong(frac, span, t, span);
    lemma_q_eq_trans(q_mul(frac, span), q_mul(t, span), q_sub(x, e0));
    // Adding e0 back recovers x.
    lemma_q_add_cong(e0, q_mul(frac, span), e0, q_sub(x, e0));
    lemma_q_add_comm(e0, q_sub(x, e0));
    lemma_q_add_sub_cancel(x, e0);
    lemma_q_eq_trans(q_add(e0, q_mul(frac, span)), q_add(e0, q_sub(x, e0)), x);
}

/// Two successive pans are one pan by the summed delta, at a fixed zoom.
pub proof fn lemma_pan_commutes(e: Qv, d1: Qv, d2: Qv, z: Qv)
    requires
        q_wf(e),
        q_wf(d1),
        q_wf(d2),
        q_wf(z),
    ensures
        q_eq(pan_edge_q(pan_edge_q(e, d1, z), d2, z), pan_edge_q(e, q_add(d1, d2), z)),
{
    let m1 = q_mul(d1, z);
    let m2 = q_mul(d2, z);
    lemma_q_wf_ops(d1, z);
    lemma_q_wf_ops(d2, z);
    lemma_q_wf_ops(e, m1);
    lemma_q_wf_ops(m1, m2);
    lemma_q_wf_ops(e, q_add(m1, m2));
    lemma_q_wf_ops(d1, d2);
    lemma_q_add_assoc(e, m1, m2);
    lemma_q_mul_add_distrib(d1, d2, z);
    lemma_q_add_cong(e, q_add(m1, m2), e, q_mul(q_add(d1, d2), z));
    lemma_q_eq_trans(
        q_add(q_add(e, m1), m2),
        q_add(e, q_add(m1, m2)),
        q_add(e, q_mul(q_add(d1, d2), z)),
    );
}


/// The checked-evaluation plan of a pan: all four edges shift by the screen
/// delta scaled by the zoom factor, and the rectangle must stay ordered.
pub open spec fn pan_plan(cam: Camera, dx: Qv, dy: Qv) -> Option<(Qv, Qv, Qv, Qv)> {
    match pan_edge_plan(cam.limits.left.q(), dx, cam.zoom.q()) {
        None => None,
        Some(l2) => match pan_edge_plan(cam.limits.right.q(), dx, cam.zoom.q()) {
            None => None,
            Some(r2) => match pan_edge_plan(cam.limits.top.q(), dy, cam.zoom.q()) {
                None => None,
                Some(t2) => match pan_edge_plan(cam.limits.bottom.q(), dy, cam.zoom.q()) {
                    None => None,
                    Some(b2) => if q_lt(l2, r2) && q_lt(t2, b2) {
                        Some((l2, r2, b2, t2))
                    } else {
                        None
                    },
                },
            },
        },
    }
}

/// The checked-evaluation plan of a cursor-anchored zoom: scale the zoom by
/// the scroll delta and sensitivity, clamp it, capture the world point under
/// the anchor, and scale every edge's distance to that point by the ratio of
/// new to old zoom.
pub open spec fn zoom_plan(cam: Camera, delta: Qv, anchor: Vec2, width: Qv, height: Qv) -> Option<
    (Qv, Qv, Qv, Qv, Qv),
> {
    match try_mul(delta, cam.config.sensitivity.q()) {
        None => None,
        Some(step) => match try_sub(cam.zoom.q(), step) {
            None => None,
            Some(z2) => {
                let z1 = q_clamp(z2, cam.config.min_zoom.q(), cam.config.max_zoom.q());
                match axis_world_plan(
                    cam.limits.left.q(),
                    cam.limits.right.q(),
                    anchor.x.q(),
                    width,
                ) {
                    None => None,
                    Some(w0x) => match axis_world_plan(
                        cam.limits.top.q(),
                        cam.limits.bottom.q(),
                        anchor.y.q(),
                        height,
                    ) {
                        None => None,
                        Some(w0y) => match try_div(z1, cam.zoom.q()) {
                            None => None,
                            Some(rho) => match zoom_edge_plan(w0x, cam.limits.left.q(), rho) {
                                None => None,
                                Some(l2) => match zoom_edge_plan(
                                    w0x,
                                    cam.limits.right.q(),
                                    rho,
                                ) {
                                    None => None,
                                    Some(r2) => match zoom_edge_plan(
                                        w0y,
                                        cam.limits.top.q(),
                                        rho,
                                    ) {
                                        None => None,
                                        Some(t2) => match zoom_edge_plan(
                                            w0y,
                                            cam.limits.bottom.q(),
                                            rho,
                                        ) {
                                            None => None,
                                            Some(b2) => if q_lt(l2, r2) && q_lt(t2, b2) {
                                                Some((l2, r2, b2, t2, z1))
                                            } else {
                                                None
                                            },
                                        },
                                    },
                                },
                            },
                        },
                    },
                }
            },
        },
    }
}

impl Camera {
    /// Shift the visible rectangle by a screen-space drag delta, scaled by
    /// the zoom factor. Fails, changing nothing, exactly when `pan_plan`
    /// does; on success each new edge is the value of `pan_edge_q`.
    pub fn apply_pan(&mut self, delta: &Vec2) -> (r: Result<(), OutOfRange>)
        requires
            old(self).inv(),
            delta.inv(),
        ensures
            final(self).inv(),
            (r is Ok) == (pan_plan(*old(self), delta.x.q(), delta.y.q()) is Some),
            r is Err ==> *final(self) == *old(self),
            final(self).mouse_pos == old(self).mouse_pos,
            final(self).config == old(self).config,
            final(self).zoom == old(self).zoom,
            r is Ok ==> (match pan_plan(*old(self), delta.x.q(), delta.y.q()) {
                Some(p) => final(self).limits.left.q() == p.0 && final(self).limits.right.q()
                    == p.1 && final(self).limits.bottom.q() == p.2 && final(self).limits.top.q()
                    == p.3,
                None => false,
            }),
            r is Ok ==> q_eq(
                final(self).limits.left.q(),
                pan_edge_q(old(self).limits.left.q(), delta.x.q(), old(self).zoom.q()),
            ) && q_eq(
                final(self).limits.right.q(),
                pan_edge_q(old(self).limits.right.q(), delta.x.q(), old(self).zoom.q()),
            ) && q_eq(
                final(self).limits.top.q(),
                pan_edge_q(old(self).limits.top.q(), delta.y.q(), old(self).zoom.q()),
            ) && q_eq(
                final(self).limits.bottom.q(),
                pan_edge_q(old(self).limits.bottom.q(), delta.y.q(), old(self).zoom.q()),
            ),
    {
        let l2 = match pan_edge(&self.limits.left, &delta.x, &self.zoom) {
            Some(v) => v,
            None => {
                return Err(OutOfRange);
            },
        };
        let r2 = match pan_edge(&self.limits.right, &delta.x, &self.zoom) {
            Some(v) => v,
            None => {
                return Err(OutOfRange);
            },
        };
        let t2 = match pan_edge(&self.limits.top, &delta.y, &self.zoom) {
            Some(v) => v,
            None => {
                return Err(OutOfRange);
            },
        };
        let b2 = match pan_edge(&self.limits.bottom, &delta.y, &self.zoom) {
            Some(v) => v,
            None => {
                return Err(OutOfRange);
            },
        };
        if l2.lt(&r2) && t2.lt(&b2) {
            self.limits = Limits { left: l2, right: r2, bottom: b2, top: t2 };
            Ok(())
        } else {
            Err(OutOfRange)
        }
    }

    /// Cursor-anchored zoom: update the zoom factor by `delta` times the
    /// sensitivity, clamp it into the configured range, and rescale the
    /// limits about the world point under `anchor` so that that point stays
    /// under the cursor (`lemma_zoom_anchors`). Fails, changing nothing,
    /// exactly when `zoom_plan` does. The new zoom never leaves the
    /// configured range.
    pub fn apply_zoom(&mut self, delta: &Rat, anchor: &Vec2, width: u32, height: u32) -> (r:
        Result<(), OutOfRange>)
        requires
            old(self).inv(),
            delta.inv(),
            anchor.inv(),
            width >= 1,
            height >= 1,
        ensures
            final(self).inv(),
            (r is Ok) == (zoom_plan(
                *old(self),
                delta.q(),
                *anchor,
                q_int(width as int),
                q_int(height as int),
            ) is Some),
            r is Err ==> *final(self) == *old(self),
            final(self).mouse_pos == old(self).mouse_pos,
            final(self).config == old(self).config,
            r is Ok ==> q_le(final(self).config.min_zoom.q(), final(self).zoom.q()) && q_le(
                final(self).zoom.q(),
                final(self).config.max_zoom.q(),
            ),
            r is Ok ==> (match zoom_plan(
                *old(self),
                delta.q(),
                *anchor,
                q_int(width as int),
                q_int(height as int),
            ) {
                Some(p) => final(self).limits.left.q() == p.0 && final(self).limits.right.q()
                    == p.1 && final(self).limits.bottom.q() == p.2 && final(self).limits.top.q()
                    == p.3 && final(self).zoom.q() == p.4,
                None => false,
            }),
    {
        let step = match delta.checked_mul(&self.config.sensitivity) {
            Some(v) => v,
            None => {
                return Err(OutOfRange);
            },
        };
        let z2 = match self.zoom.checked_sub(&step) {
            Some(v) => v,
            None => {
                return Err(OutOfRange);
            },
        };
        let z1 = z2.clamp(&self.config.min_zoom, &self.config.max_zoom);
        let w = Rat::from_int(width as i64);
        let h = Rat::from_int(height as i64);
        let w0x = match axis_world(&self.limits.left, &self.limits.right, &anchor.x, &w) {
            Some(v) => v,
            None => {
                return Err(OutOfRange);
            },
        };
        let w0y = match axis_world(&self.limits.top, &self.limits.bottom, &anchor.y, &h) {
            Some(v) => v,
            None => {
                return Err(OutOfRange);
            },
        };
        proof {
            assert(self.zoom.num > 0) by (nonlinear_arith)
                requires
                    q_lt(q_int(0), self.config.min_zoom.q()),
                    q_le(self.config.min_zoom.q(), self.zoom.q()),
                    self.config.min_zoom.den >= 1,
                    self.zoom.den >= 1,
            ;
        }
        let rho = match z1.checked_div(&self.zoom) {
            Some(v) => v,
            None => {
                return Err(OutOfRange);
            },
        };
        let l2 = match zoom_edge(&w0x, &self.limits.left, &rho) {
            Some(v) => v,
            None => {
                return Err(OutOfRange);
            },
        };
        let r2 = match zoom_edge(&w0x, &self.limits.right, &rho) {
            Some(v) => v,
            None => {
                return Err(OutOfRange);
            },
        };
        let t2 = match zoom_edge(&w0y, &self.limits.top, &rho) {
            Some(v) => v,
            None => {
                return Err(OutOfRange);
            },
        };
        let b2 = match zoom_edge(&w0y, &self.limits.bottom, &rho) {
            Some(v) => v,
            None => {
                return Err(OutOfRange);
            },
        };
        if l2.lt(&r2) && t2.lt(&b2) {
            self.limits = Limits { left: l2, right: r2, bottom: b2, top: t2 };
            self.zoom = z1;
            Ok(())
        } else {
            Err(OutOfRange)
        }
    }
}


/// A 4 x 4 matrix of rationals, column major. The orthographic projection is
/// built with the fixed near/far pair `(2, 0)`: a reversed, depthless range,
/// under which the two z entries collapse to the constant `1`.
pub struct Mat4 {
    pub cols: [[Rat; 4]; 4],
}

/// The checked-evaluation plan of the four interesting entries of the
/// orthographic projection: the x and y scales `2/(right-left)`,
/// `2/(top-bottom)` and the translations `-(right+left)/(right-left)`,
/// `-(top+bottom)/(top-bottom)`.
pub open spec fn proj_plan(cam: Camera) -> Option<(Qv, Qv, Qv, Qv)> {
    let l = cam.limits.left.q();
    let r = cam.limits.right.q();
    let b = cam.limits.bottom.q();
    let t = cam.limits.top.q();
    match try_sub(r, l) {
        None => None,
        Some(spanx) => match try_sub(t, b) {
            None => None,
            Some(spany) => match try_div(q_int(2), spanx) {
                None => None,
                Some(sx) => match try_div(q_int(2), spany) {
                    None => None,
                    Some(sy) => match try_add(r, l) {
                        None => None,
                        Some(sumx) => match try_add(t, b) {
                            None => None,
                            Some(sumy) => match try_div(q_neg(sumx), spanx) {
                                None => None,
                                Some(tx) => match try_div(q_neg(sumy), spany) {
                                    None => None,
                                    Some(ty) => Some((sx, sy, tx, ty)),
                                },
                            },
                        },
                    },
                },
            },
        },
    }
}

impl Camera {
    /// The orthographic projection of the current limits, with near `2` and
    /// far `0`. Fails exactly when `proj_plan` does; on success the scale and
    /// translation entries are the plan's values, and every other entry is
    /// the constant `0` or `1` of the orthographic form.
    pub fn build_view_projection_matrix(&self) -> (r: Option<Mat4>)
        requires
            self.inv(),
        ensures
            (r is Some) == (proj_plan(*self) is Some),
            r matches Some(m) ==> (match proj_plan(*self) {
                Some(p) => {
                    &&& m.cols[0][0].q() == p.0
                    &&& m.cols[1][1].q() == p.1
                    &&& m.cols[3][0].q() == p.2
                    &&& m.cols[3][1].q() == p.3
                    &&& m.cols[2][2].q() == q_int(1)
                    &&& m.cols[3][2].q() == q_int(1)
                    &&& m.cols[3][3].q() == q_int(1)
                    &&& m.cols[0][1].q() == q_int(0) && m.cols[0][2].q() == q_int(0)
                        && m.cols[0][3].q() == q_int(0)
                    &&& m.cols[1][0].q() == q_int(0) && m.cols[1][2].q() == q_int(0)
                        && m.cols[1][3].q() == q_int(0)
                    &&& m.cols[2][0].q() == q_int(0) && m.cols[2][1].q() == q_int(0)
                        && m.cols[2][3].q() == q_int(0)
                    &&& m.cols[3][0].inv() && m.cols[3][1].inv() && m.cols[0][0].inv()
                        && m.cols[1][1].inv()
                },
                None => false,
            }),
    {
        let two = Rat::from_int(2);
        let spanx = match self.limits.right.checked_sub(&self.limits.left) {
            Some(v) => v,
            None => {
                return None;
            },
        };
        let spany = match self.limits.top.checked_sub(&self.limits.bottom) {
            Some(v) => v,
            None => {
                return None;
            },
        };
        proof {
            lemma_q_wf_ops(self.limits.right.q(), self.limits.left.q());
            lemma_q_red(q_sub(self.limits.right.q(), self.limits.left.q()));
            lemma_q_eq_same_sign(
                spanx.q(),
                q_sub(self.limits.right.q(), self.limits.left.q()),
            );
            lemma_q_wf_ops(self.limits.top.q(), self.limits.bottom.q());
            lemma_q_red(q_sub(self.limits.top.q(), self.limits.bottom.q()));
            lemma_q_eq_same_sign(
                spany.q(),
                q_sub(self.limits.top.q(), self.limits.bottom.q()),
            );
        }
        let sx = match two.checked_div(&spanx) {
            Some(v) => v,
            None => {
                return None;
            },
        };
        let sy = match two.checked_div(&spany) {
            Some(v) => v,
            None => {
                return None;
            },
        };
        let sumx = match self.limits.right.checked_add(&self.limits.left) {
            Some(v) => v,
            None => {
                return None;
            },
        };
        let sumy = match self.limits.top.checked_add(&self.limits.bottom) {
            Some(v) => v,
            None => {
                return None;
            },
        };
        let tx = match sumx.neg().checked_div(&spanx) {
            Some(v) => v,
            None => {
                return None;
            },
        };
        let ty = match sumy.neg().checked_div(&spany) {
            Some(v) => v,
            None => {
                return None;
            },
        };
        let zero = Rat::from_int(0);
        let one = Rat::from_int(1);
        Some(
            Mat4 {
                cols: [
                    [sx, zero, zero, zero],
                    [zero, sy, zero, zero],
                    [zero, zero, one, zero],
                    [tx, ty, one, one],
                ],
            },
        )
    }
}

/// The GPU-facing snapshot of the projection: a plain matrix, recomputed in
/// full from the camera on demand.
pub struct CameraUniform {
    pub view_proj: Mat4,
}

impl CameraUniform {
    /// The identity matrix snapshot.
    pub fn new() -> (u: CameraUniform)
        ensures
            forall|i: int, j: int|
                0 <= i < 4 && 0 <= j < 4 ==> u.view_proj.cols[i][j].q() == (if i == j {
                    q_int(1)
                } else {
                    q_int(0)
                }),
    {
        let zero = Rat::from_int(0);
        let one = Rat::from_int(1);
        let u = CameraUniform {
            view_proj: Mat4 {
                cols: [
                    [one, zero, zero, zero],
                    [zero, one, zero, zero],
                    [zero, zero, one, zero],
                    [zero, zero, zero, one],
                ],
            },
        };
        u
    }

    /// Recompute the snapshot from the camera. Fails, keeping the old
    /// snapshot, exactly when the projection itself cannot be represented.
    pub fn update_view_proj(&mut self, camera: &Camera) -> (r: Result<(), OutOfRange>)
        requires
            camera.inv(),
        ensures
            (r is Ok) == (proj_plan(*camera) is Some),
            r is Err ==> *final(self) == *old(self),
            r is Ok ==> (match proj_plan(*camera) {
                Some(p) => {
                    let m = final(self).view_proj;
                    &&& m.cols[0][0].q() == p.0
                    &&& m.cols[1][1].q() == p.1
                    &&& m.cols[3][0].q() == p.2
                    &&& m.cols[3][1].q() == p.3
                    &&& m.cols[2][2].q() == q_int(1)
                    &&& m.cols[3][2].q() == q_int(1)
                    &&& m.cols[3][3].q() == q_int(1)
                    &&& m.cols[0][1].q() == q_int(0) && m.cols[0][2].q() == q_int(0)
                        && m.cols[0][3].q() == q_int(0)
                    &&& m.cols[1][0].q() == q_int(0) && m.cols[1][2].q() == q_int(0)
                        && m.cols[1][3].q() == q_int(0)
                    &&& m.cols[2][0].q() == q_int(0) && m.cols[2][1].q() == q_int(0)
                        && m.cols[2][3].q() == q_int(0)
                    &&& m.cols[0][0].inv() && m.cols[1][1].inv() && m.cols[3][0].inv()
                        && m.cols[3][1].inv()
                },
                None => false,
            }),
    {
        match camera.build_view_projection_matrix() {
            Some(m) => {
                self.view_proj = m;
                Ok(())
            },
            None => Err(OutOfRange),
        }
    }

    /// Where the camera's cached pointer position lies in world space.
    /// Computed from the camera itself rather than by inverting the stored
    /// snapshot; whenever the snapshot is kept fresh (recomputed after every
    /// camera mutation) the two readings agree, and this form needs no
    /// matrix inversion. Succeeds exactly when the two axis plans do.
    pub fn get_absolute_mouse_pos(&self, camera: &Camera, width: u32, height: u32) -> (r: Option<
        Vec2,
    >)
        requires
            camera.inv(),
            width >= 1,
            height >= 1,
        ensures
            (r is Some) == (axis_world_plan(
                camera.limits.left.q(),
                camera.limits.right.q(),
                camera.mouse_pos.x.q(),
                q_int(width as int),
            ) is Some && axis_world_plan(
                camera.limits.top.q(),
                camera.limits.bottom.q(),
                camera.mouse_pos.y.q(),
                q_int(height as int),
            ) is Some),
            r matches Some(v) ==> v.inv() && q_eq(
                v.x.q(),
                axis_world_q(
                    camera.limits.left.q(),
                    camera.limits.right.q(),
                    camera.mouse_pos.x.q(),
                    q_int(width as int),
                ),
            ) && q_eq(
                v.y.q(),
                axis_world_q(
                    camera.limits.top.q(),
                    camera.limits.bottom.q(),
                    camera.mouse_pos.y.q(),
                    q_int(height as int),
                ),
            ),
    {
        camera.get_absolute_mouse_pos(width, height)
    }
}


/// A successful `pan_edge_plan` result is well formed and is the value of
/// `pan_edge_q`.
pub proof fn lemma_pan_edge_plan_value(e: Qv, d: Qv, z: Qv)
    requires
        q_wf(e),
        q_wf(d),
        q_wf(z),
        pan_edge_plan(e, d, z) is Some,
    ensures
        q_wf(pan_edge_plan(e, d, z).unwrap()),
        q_eq(pan_edge_plan(e, d, z).unwrap(), pan_edge_q(e, d, z)),
{
    lemma_q_wf_ops(d, z);
    lemma_q_red(q_mul(d, z));
    let step = q_red(q_mul(d, z));
    lemma_q_wf_ops(e, step);
    lemma_q_red(q_add(e, step));
    lemma_q_add_cong(e, step, e, q_mul(d, z));
    lemma_q_eq_trans(q_red(q_add(e, step)), q_add(e, step), pan_edge_q(e, d, z));
}

/// Successive pans of one edge compose: if panning by `d1` then by `d2`
/// applies, and panning once by their sum `d` applies, both paths end on the
/// same value.
pub proof fn lemma_pan_edge_composes(e: Qv, d1: Qv, d2: Qv, d: Qv, z: Qv)
    requires
        q_wf(e),
        q_wf(d1),
        q_wf(d2),
        q_wf(d),
        q_wf(z),
        q_eq(q_add(d1, d2), d),
        pan_edge_plan(e, d1, z) is Some,
        pan_edge_plan(pan_edge_plan(e, d1, z).unwrap(), d2, z) is Some,
        pan_edge_plan(e, d, z) is Some,
    ensures
        q_eq(
            pan_edge_plan(pan_edge_plan(e, d1, z).unwrap(), d2, z).unwrap(),
            pan_edge_plan(e, d, z).unwrap(),
        ),
{
    let m1 = pan_edge_plan(e, d1, z).unwrap();
    let m2 = pan_edge_plan(m1, d2, z).unwrap();
    let m = pan_edge_plan(e, d, z).unwrap();
    lemma_pan_edge_plan_value(e, d1, z);
    lemma_pan_edge_plan_value(m1, d2, z);
    lemma_pan_edge_plan_value(e, d, z);
    lemma_q_wf_ops(d1, z);
    lemma_q_wf_ops(d2, z);
    lemma_q_wf_ops(d, z);
    lemma_q_wf_ops(d1, d2);
    lemma_q_wf_ops(e, q_mul(d1, z));
    lemma_q_wf_ops(e, q_mul(d, z));
    lemma_q_wf_ops(q_add(d1, d2), z);
    lemma_q_wf_ops(e, q_mul(q_add(d1, d2), z));
    lemma_q_wf_ops(m1, q_mul(d2, z));
    lemma_q_wf_ops(pan_edge_q(e, d1, z), q_mul(d2, z));
    // The second pan starts from the first pan's value.
    lemma_q_add_cong(m1, q_mul(d2, z), pan_edge_q(e, d1, z), q_mul(d2, z));
    lemma_q_eq_trans(m2, pan_edge_q(m1, d2, z), pan_edge_q(pan_edge_q(e, d1, z), d2, z));
    // Two pans are one pan by the summed delta.
    lemma_pan_commutes(e, d1, d2, z);
    lemma_q_eq_trans(
        m2,
        pan_edge_q(pan_edge_q(e, d1, z), d2, z),
        pan_edge_q(e, q_add(d1, d2), z),
    );
    // The summed delta is the single delta.
    lemma_q_mul_cong(q_add(d1, d2), z, d, z);
    lemma_q_add_cong(e, q_mul(q_add(d1, d2), z), e, q_mul(d, z));
    lemma_q_eq_trans(m2, pan_edge_q(e, q_add(d1, d2), z), pan_edge_q(e, d, z));
    lemma_q_eq_trans(m2, pan_edge_q(e, d, z), m);
}

} // verus!
