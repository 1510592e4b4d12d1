use vstd::prelude::*;
use crate::geometry::{
    check_circle_boundary_collisions, circle_bounce_spec, shift, shift_spec, Headings, Rect,
    COORD_LIMIT, FULL_TURN, HEADING_SCALE, UNIT,
};

verus! {

/// Puck radius, in sub-pixel units.
pub const PUCK_RADIUS: i64 = 18 * UNIT;

/// Speed of a falling puck, in thousandths of a pixel per tick.
pub const PUCK_SPEED: i64 = 600;

/// A disc of the bonus board. A pin has a negative speed and never moves; an active
/// puck moves by `speed` along `angle` every tick.
#[derive(Clone, Copy, Debug)]
pub struct Puck {
    pub position: (i64, i64),
    pub angle: i64,
    pub speed: i64,
    pub is_alive: bool,
}

/// `v` held within `[lo, hi]`.
pub open spec fn clamp_spec(v: int, lo: int, hi: int) -> int {
    if v < lo {
        lo
    } else if v > hi {
        hi
    } else {
        v
    }
}

/// The disc of radius `r` centred at `(px, py)` meets `rect`: the point of the
/// rectangle nearest to the centre lies within `r`.
pub open spec fn touches(px: int, py: int, r: int, rect: Rect) -> bool {
    let dx = px - clamp_spec(px, rect.x as int, rect.x + rect.w);
    let dy = py - clamp_spec(py, rect.y as int, rect.y + rect.h);
    dx * dx + dy * dy <= r * r
}

impl Puck {
    pub open spec fn wf(&self) -> bool {
        &&& -COORD_LIMIT <= self.position.0 <= COORD_LIMIT
        &&& -COORD_LIMIT <= self.position.1 <= COORD_LIMIT
        &&& 0 <= self.angle < FULL_TURN
        &&& -1 <= self.speed <= HEADING_SCALE
    }

    pub open spec fn touches_rect(&self, rect: Rect) -> bool {
        touches(self.position.0 as int, self.position.1 as int, PUCK_RADIUS as int, rect)
    }

    /// State after one `step`: a moving puck first takes the heading that the wall
    /// check at its current position gives (a dead one keeps its heading), then moves
    /// along it.
    pub open spec fn stepped(&self, bounds: Rect, h: &Headings) -> Puck {
        if self.speed > 0 {
            let a = if self.is_alive {
                circle_bounce_spec(
                    true,
                    bounds,
                    self.position.0 as int,
                    self.position.1 as int,
                    PUCK_RADIUS as int,
                    self.angle as int,
                )
            } else {
                self.angle as int
            };
            let d = h.displacement(a, self.speed as int);
            Puck {
                position: (
                    shift_spec(self.position.0 as int, d.0) as i64,
                    shift_spec(self.position.1 as int, d.1) as i64,
                ),
                angle: a as i64,
                ..*self
            }
        } else {
            *self
        }
    }

    /// A pin: an obstacle that never moves.
    pub fn new_fixed(pos: (i64, i64)) -> (p: Puck)
        requires
            -COORD_LIMIT <= pos.0 <= COORD_LIMIT,
            -COORD_LIMIT <= pos.1 <= COORD_LIMIT,
        ensures
            p.wf(),
            p == (Puck { position: pos, angle: 0, speed: -1i64, is_alive: true }),
    {
        Puck { position: pos, angle: 0, speed: -1, is_alive: true }
    }

    /// A falling puck, heading along `angle`.
    pub fn new_active(pos: (i64, i64), angle: i64) -> (p: Puck)
        requires
            -COORD_LIMIT <= pos.0 <= COORD_LIMIT,
            -COORD_LIMIT <= pos.1 <= COORD_LIMIT,
            0 <= angle < FULL_TURN,
        ensures
            p.wf(),
            p == (Puck { position: pos, angle, speed: PUCK_SPEED, is_alive: true }),
    {
        Puck { position: pos, angle, speed: PUCK_SPEED, is_alive: true }
    }

    pub fn step(&mut self, boundaries: Rect, headings: &Headings)
        requires
            old(self).wf(),
            boundaries.wf(),
            headings.wf(),
        ensures
            final(self).wf(),
            *final(self) == old(self).stepped(boundaries, headings),
    {
        if self.speed > 0 {
            if self.is_alive {
                self.angle = check_circle_boundary_collisions(
                    true,
                    boundaries,
                    self.position,
                    PUCK_RADIUS,
                    self.angle,
                );
            }
            let (dx, dy) = headings.step_for(self.angle, self.speed);
            self.position = (shift(self.position.0, dx), shift(self.position.1, dy));
        }
    }

    /// Whether the puck overlaps `rect` (see `touches`).
    pub fn collides_with(&self, rect: Rect) -> (r: bool)
        requires
            self.wf(),
            rect.wf(),
        ensures
            r == self.touches_rect(rect),
    {
        let (px, py) = self.position;
        let nx = if px < rect.x {
            rect.x
        } else if px > rect.x + rect.w {
            rect.x + rect.w
        } else {
            px
        };
        let ny = if py < rect.y {
            rect.y
        } else if py > rect.y + rect.h {
            rect.y + rect.h
        } else {
            py
        };
        let dx = px as i128 - nx as i128;
        let dy = py as i128 - ny as i128;
        proof {
            assert(0 <= dx * dx <= 0x100_0000_0000_0000_0000_0000_0000) by (nonlinear_arith)
                requires
                    -0x4_0000_0000_0000 <= dx <= 0x4_0000_0000_0000,
            ;
            assert(0 <= dy * dy <= 0x100_0000_0000_0000_0000_0000_0000) by (nonlinear_arith)
                requires
                    -0x4_0000_0000_0000 <= dy <= 0x4_0000_0000_0000,
            ;
        }
        let r = PUCK_RADIUS as i128;
        dx * dx + dy * dy <= r * r
    }

    /// Takes the heading that the outer wall check against `rect` gives.
    pub fn bounce(&mut self, rect: Rect)
        requires
            old(self).wf(),
            rect.wf(),
        ensures
            final(self).wf(),
            *final(self) == (Puck {
                angle: circle_bounce_spec(
                    false,
                    rect,
                    old(self).position.0 as int,
                    old(self).position.1 as int,
                    PUCK_RADIUS as int,
                    old(self).angle as int,
                ) as i64,
                ..*old(self)
            }),
    {
        self.angle = check_circle_boundary_collisions(
            false,
            rect,
            self.position,
            PUCK_RADIUS,
            self.angle,
        );
    }
}

} // verus!
