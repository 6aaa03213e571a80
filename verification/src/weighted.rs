//! The alternate viewport model: a pixel-sized rectangle anchored at a
//! world-space offset, whose four clip edges are pushed outward independently
//! by per-edge weights in `[0, 1]`, scaled by a clamped zoom factor. Its zoom
//! is a plain clamped scalar, not anchored on the cursor; the two models are
//! deliberately kept apart.

use vstd::prelude::*;

use crate::camera::{
    pan_edge_plan, try_add, try_mul, try_sub, Limits, OutOfRange, Vec2, ZoomConfig,
};
use crate::rat::{
    lemma_q_add_cong, lemma_q_eq_trans, lemma_q_mul_cong, lemma_q_red, lemma_q_sub_cong,
    lemma_q_wf_ops, q_add, q_clamp, q_eq, q_int, q_le, q_lt, q_mul, q_sub, Qv, Rat,
};

verus! {

/// How far each clip edge is pushed outward from the offset anchor, as a
/// fraction of the viewport extent on its axis.
#[derive(Clone, Copy, Debug)]
pub struct Weight {
    pub top: Rat,
    pub left: Rat,
    pub right: Rat,
    pub bottom: Rat,
}

pub open spec fn weight_in_range(w: Rat) -> bool {
    &&& w.inv()
    &&& q_le(q_int(0), w.q())
    &&& q_le(w.q(), q_int(1))
}

impl Weight {
    pub open spec fn inv(&self) -> bool {
        weight_in_range(self.top) && weight_in_range(self.left) && weight_in_range(self.right)
            && weight_in_range(self.bottom)
    }
}

/// An edge below the anchor coordinate: `offset - (extent * weight) * zoom`.
pub open spec fn weighted_low_edge_q(o: Qv, extent: Qv, w: Qv, z: Qv) -> Qv {
    q_sub(o, q_mul(q_mul(extent, w), z))
}

/// An edge above the anchor coordinate: `offset + (extent * weight) * zoom`.
pub open spec fn weighted_high_edge_q(o: Qv, extent: Qv, w: Qv, z: Qv) -> Qv {
    q_add(o, q_mul(q_mul(extent, w), z))
}

/// The checked-evaluation plan of one weighted edge.
pub open spec fn weighted_edge_plan(o: Qv, extent: Qv, w: Qv, z: Qv, high: bool) -> Option<Qv> {
    match try_mul(extent, w) {
        None => None,
        Some(ew) => match try_mul(ew, z) {
            None => None,
            Some(ewz) => if high {
                try_add(o, ewz)
            } else {
                try_sub(o, ewz)
            },
        },
    }
}

/// One weighted edge. Returns exactly what `weighted_edge_plan` prescribes;
/// any result is the value of `weighted_low_edge_q` or `weighted_high_edge_q`.
fn weighted_edge(o: &Rat, extent: &Rat, w: &Rat, z: &Rat, high: bool) -> (r: Option<Rat>)
    requires
        o.inv(),
        extent.inv(),
        w.inv(),
        z.inv(),
    ensures
        (r is Some) == (weighted_edge_plan(o.q(), extent.q(), w.q(), z.q(), high) is Some),
        r matches Some(v) ==> v.inv() && Some(v.q()) == weighted_edge_plan(
            o.q(),
            extent.q(),
            w.q(),
            z.q(),
            high,
        ) && q_eq(
            v.q(),
            if high {
                weighted_high_edge_q(o.q(), extent.q(), w.q(), z.q())
            } else {
                weighted_low_edge_q(o.q(), extent.q(), w.q(), z.q())
            },
        ),
{
    let ew = match extent.checked_mul(w) {
        Some(v) => v,
        None => {
            return None;
        },
    };
    let ewz = match ew.checked_mul(z) {
        Some(v) => v,
        None => {
            return None;
        },
    };
    proof {
        lemma_q_wf_ops(extent.q(), w.q());
        lemma_q_red(q_mul(extent.q(), w.q()));
        lemma_q_mul_cong(ew.q(), z.q(), q_mul(extent.q(), w.q()), z.q());
        lemma_q_wf_ops(ew.q(), z.q());
        lemma_q_red(q_mul(ew.q(), z.q()));
        lemma_q_eq_trans(
            ewz.q(),
            q_mul(ew.q(), z.q()),
            q_mul(q_mul(extent.q(), w.q()), z.q()),
        );
    }
    if high {
        let e = match o.checked_add(&ewz) {
            Some(v) => v,
            None => {
                return None;
            },
        };
        proof {
            lemma_q_add_cong(o.q(), ewz.q(), o.q(), q_mul(q_mul(extent.q(), w.q()), z.q()));
            lemma_q_wf_ops(o.q(), ewz.q());
            lemma_q_red(q_add(o.q(), ewz.q()));
            lemma_q_eq_trans(
                e.q(),
                q_add(o.q(), ewz.q()),
                weighted_high_edge_q(o.q(), extent.q(), w.q(), z.q()),
            );
        }
        Some(e)
    } else {
        let e = match o.checked_sub(&ewz) {
            Some(v) => v,
            None => {
                return None;
            },
        };
        proof {
            lemma_q_sub_cong(o.q(), ewz.q(), o.q(), q_mul(q_mul(extent.q(), w.q()), z.q()));
            lemma_q_wf_ops(o.q(), ewz.q());
            lemma_q_red(q_sub(o.q(), ewz.q()));
            lemma_q_eq_trans(
                e.q(),
                q_sub(o.q(), ewz.q()),
                weighted_low_edge_q(o.q(), extent.q(), w.q(), z.q()),
            );
        }
        Some(e)
    }
}

/// The weighted viewport: pixel extents, a world-space anchor offset, a
/// clamped zoom, and the four edge weights.
#[derive(Clone, Copy, Debug)]
pub struct WeightedCamera {
    pub width: u32,
    pub height: u32,
    pub offset: Vec2,
    pub zoom: Rat,
    pub weight: Weight,
    pub config: ZoomConfig,
}

impl WeightedCamera {
    pub open spec fn inv(&self) -> bool {
        &&& self.offset.inv()
        &&& self.zoom.inv()
        &&& self.weight.inv()
        &&& self.config.inv()
        &&& q_le(self.config.min_zoom.q(), self.zoom.q())
        &&& q_le(self.zoom.q(), self.config.max_zoom.q())
    }

    /// The four clip edges this viewport induces: each one the anchor pushed
    /// outward by its own weight, scaled by the extent and zoom. Fails
    /// exactly when one edge's plan does.
    pub fn build_projection_limits(&self) -> (r: Option<Limits<Rat>>)
        requires
            self.inv(),
        ensures
            r matches Some(lim) ==> lim.left.inv() && lim.right.inv() && lim.top.inv()
                && lim.bottom.inv() && q_eq(
                lim.left.q(),
                weighted_low_edge_q(
                    self.offset.x.q(),
                    q_int(self.width as int),
                    self.weight.left.q(),
                    self.zoom.q(),
                ),
            ) && q_eq(
                lim.right.q(),
                weighted_high_edge_q(
                    self.offset.x.q(),
                    q_int(self.width as int),
                    self.weight.right.q(),
                    self.zoom.q(),
                ),
            ) && q_eq(
                lim.top.q(),
                weighted_low_edge_q(
                    self.offset.y.q(),
                    q_int(self.height as int),
                    self.weight.top.q(),
                    self.zoom.q(),
                ),
            ) && q_eq(
                lim.bottom.q(),
                weighted_high_edge_q(
                    self.offset.y.q(),
                    q_int(self.height as int),
                    self.weight.bottom.q(),
                    self.zoom.q(),
                ),
            ),
            (r is Some) == (weighted_edge_plan(
                self.offset.x.q(),
                q_int(self.width as int),
                self.weight.left.q(),
                self.zoom.q(),
                false,
            ) is Some && weighted_edge_plan(
                self.offset.x.q(),
                q_int(self.width as int),
                self.weight.right.q(),
                self.zoom.q(),
                true,
            ) is Some && weighted_edge_plan(
                self.offset.y.q(),
                q_int(self.height as int),
                self.weight.top.q(),
                self.zoom.q(),
                false,
            ) is Some && weighted_edge_plan(
                self.offset.y.q(),
                q_int(self.height as int),
                self.weight.bottom.q(),
                self.zoom.q(),
                true,
            ) is Some),
    {
        let w = Rat::from_int(self.width as i64);
        let h = Rat::from_int(self.height as i64);
        let left = match weighted_edge(&self.offset.x, &w, &self.weight.left, &self.zoom, false) {
            Some(v) => v,
            None => {
                return None;
            },
        };
        let right = match weighted_edge(&self.offset.x, &w, &self.weight.right, &self.zoom, true) {
            Some(v) => v,
            None => {
                return None;
            },
        };
        let top = match weighted_edge(&self.offset.y, &h, &self.weight.top, &self.zoom, false) {
            Some(v) => v,
            None => {
                return None;
            },
        };
        let bottom = match weighted_edge(&self.offset.y, &h, &self.weight.bottom, &self.zoom, true) {
            Some(v) => v,
            None => {
                return None;
            },
        };
        Some(Limits { left, right, bottom, top })
    }

    /// Uncentered zoom: clamp the updated factor into the configured range.
    /// Fails, changing nothing, exactly when the update cannot be
    /// represented. The zoom never leaves the configured range.
    pub fn apply_zoom(&mut self, delta: &Rat) -> (r: Result<(), OutOfRange>)
        requires
            old(self).inv(),
            delta.inv(),
        ensures
            final(self).inv(),
            r is Err ==> *final(self) == *old(self),
            final(self).offset == old(self).offset && final(self).weight == old(self).weight
                && final(self).config == old(self).config && final(self).width == old(self).width
                && final(self).height == old(self).height,
            (r is Ok) == (match try_mul(delta.q(), old(self).config.sensitivity.q()) {
                None => false,
                Some(step) => try_sub(old(self).zoom.q(), step) is Some,
            }),
            r is Ok ==> q_le(final(self).config.min_zoom.q(), final(self).zoom.q()) && q_le(
                final(self).zoom.q(),
                final(self).config.max_zoom.q(),
            ),
    {
        let step = match delta.checked_mul(&self.config.sensitivity) {
            Some(v) => v,
            None => {
                return Err(OutOfRange);
            },
        };
        let z2 = match self.zoom.checked_sub(&step) {
            Some(v) => v,
            None => {
                return Err(OutOfRange);
            },
        };
        self.zoom = z2.clamp(&self.config.min_zoom, &self.config.max_zoom);
        Ok(())
    }

    /// Pan: shift the anchor offset by the delta directly; the offset is
    /// already in world units at the current zoom. Fails, changing nothing,
    /// exactly when a shifted coordinate cannot be represented.
    pub fn apply_pan(&mut self, delta: &Vec2) -> (r: Result<(), OutOfRange>)
        requires
            old(self).inv(),
            delta.inv(),
        ensures
            final(self).inv(),
            r is Err ==> *final(self) == *old(self),
            (r is Ok) == (try_add(old(self).offset.x.q(), delta.x.q()) is Some && try_add(
                old(self).offset.y.q(),
                delta.y.q(),
            ) is Some),
            r is Ok ==> q_eq(
                final(self).offset.x.q(),
                q_add(old(self).offset.x.q(), delta.x.q()),
            ) && q_eq(final(self).offset.y.q(), q_add(old(self).offset.y.q(), delta.y.q())),
            final(self).zoom == old(self).zoom && final(self).weight == old(self).weight
                && final(self).config == old(self).config && final(self).width == old(self).width
                && final(self).height == old(self).height,
    {
        let x = match self.offset.x.checked_add(&delta.x) {
            Some(v) => v,
            None => {
                return Err(OutOfRange);
            },
        };
        let y = match self.offset.y.checked_add(&delta.y) {
            Some(v) => v,
            None => {
                return Err(OutOfRange);
            },
        };
        proof {
            lemma_q_wf_ops(old(self).offset.x.q(), delta.x.q());
            lemma_q_wf_ops(old(self).offset.y.q(), delta.y.q());
            lemma_q_red(q_add(old(self).offset.x.q(), delta.x.q()));
            lemma_q_red(q_add(old(self).offset.y.q(), delta.y.q()));
        }
        self.offset = Vec2 { x, y };
        Ok(())
    }

    /// Update the pixel extents; a zero dimension is rejected as a no-op, so
    /// the projection can never become degenerate through a resize.
    pub fn resize(&mut self, new_width: u32, new_height: u32)
        ensures
            new_width >= 1 && new_height >= 1 ==> *final(self) == (WeightedCamera {
                width: new_width,
                height: new_height,
                ..*old(self)
            }),
            !(new_width >= 1 && new_height >= 1) ==> *final(self) == *old(self),
    {
        if new_width >= 1 && new_height >= 1 {
            self.width = new_width;
            self.height = new_height;
        }
    }
}

/// Changing only the right edge weight moves only the right clip edge: for
/// two viewports that agree on everything but `weight.right`, the left, top
/// and bottom edge values coincide, and each right edge is its own weight's
/// `weighted_high_edge_q`.
pub proof fn lemma_weight_right_independent(c1: WeightedCamera, c2: WeightedCamera)
    requires
        c1.offset == c2.offset,
        c1.width == c2.width,
        c1.height == c2.height,
        c1.zoom == c2.zoom,
        c1.weight.left == c2.weight.left,
        c1.weight.top == c2.weight.top,
        c1.weight.bottom == c2.weight.bottom,
    ensures
        weighted_low_edge_q(c1.offset.x.q(), q_int(c1.width as int), c1.weight.left.q(), c1.zoom.q())
            == weighted_low_edge_q(
            c2.offset.x.q(),
            q_int(c2.width as int),
            c2.weight.left.q(),
            c2.zoom.q(),
        ),
        weighted_low_edge_q(c1.offset.y.q(), q_int(c1.height as int), c1.weight.top.q(), c1.zoom.q())
            == weighted_low_edge_q(
            c2.offset.y.q(),
            q_int(c2.height as int),
            c2.weight.top.q(),
            c2.zoom.q(),
        ),
        weighted_high_edge_q(
            c1.offset.y.q(),
            q_int(c1.height as int),
            c1.weight.bottom.q(),
            c1.zoom.q(),
        ) == weighted_high_edge_q(
            c2.offset.y.q(),
            q_int(c2.height as int),
            c2.weight.bottom.q(),
            c2.zoom.q(),
        ),
{
}

} // verus!
