use vstd::prelude::*;
use crate::geometry::{
    flip_x, flip_y, mirror_x, mirror_y, shift, shift_spec, Headings, Rect, COORD_LIMIT,
    FULL_TURN, HALF_TURN, HEADING_SCALE, UNIT,
};

verus! {

/// A projectile: `position` is the top-left corner of its bounding box.
#[derive(Clone, Copy, Debug)]
pub struct Bullet {
    pub cannon_id: u8,
    pub position: (i64, i64),
    pub angle: i64,
    pub speed: i64,
    pub is_alive: bool,
}

/// Bullet radius, in sub-pixel units.
pub const BULLET_RADIUS: i64 = 5 * UNIT;

/// Bullet speed, in thousandths of a pixel per tick.
pub const BULLET_SPEED: i64 = 1000;

/// The bullet's box pokes out past the left or right side of `field`.
pub open spec fn crosses_x(field: Rect, px: int) -> bool {
    px < field.x || px + 2 * BULLET_RADIUS > field.x + field.w
}

/// The bullet's box pokes out past the top or bottom side of `field`.
pub open spec fn crosses_y(field: Rect, py: int) -> bool {
    py < field.y || py + 2 * BULLET_RADIUS > field.y + field.h
}

/// Heading after the wall check at position `(px, py)`: each axis on which the box
/// pokes out mirrors the heading once.
pub open spec fn bounced(field: Rect, px: int, py: int, angle: int) -> int {
    let a1 = if crosses_x(field, px) {
        mirror_x(angle)
    } else {
        angle
    };
    if crosses_y(field, py) {
        mirror_y(a1)
    } else {
        a1
    }
}

impl Bullet {
    pub open spec fn wf(&self) -> bool {
        &&& -COORD_LIMIT <= self.position.0 <= COORD_LIMIT
        &&& -COORD_LIMIT <= self.position.1 <= COORD_LIMIT
        &&& 0 <= self.angle < FULL_TURN
        &&& 0 <= self.speed <= HEADING_SCALE
    }

    /// State after one `step`: a live bullet moves along its current heading, then the
    /// wall check at the new position sets the heading for the next tick.
    pub open spec fn stepped(&self, field: Rect, h: &Headings) -> Bullet {
        if self.is_alive {
            let d = h.displacement(self.angle as int, self.speed as int);
            let px = shift_spec(self.position.0 as int, d.0);
            let py = shift_spec(self.position.1 as int, d.1);
            Bullet {
                position: (px as i64, py as i64),
                angle: bounced(field, px, py, self.angle as int) as i64,
                ..*self
            }
        } else {
            *self
        }
    }

    pub fn new(cannon_id: u8, x: i64, y: i64, angle: i64) -> (b: Bullet)
        requires
            -COORD_LIMIT <= x <= COORD_LIMIT,
            -COORD_LIMIT <= y <= COORD_LIMIT,
            0 <= angle < FULL_TURN,
        ensures
            b.wf(),
            b == (Bullet {
                cannon_id,
                position: (x, y),
                angle,
                speed: BULLET_SPEED,
                is_alive: true,
            }),
    {
        Bullet { cannon_id, position: (x, y), angle, speed: BULLET_SPEED, is_alive: true }
    }

    pub fn step(&mut self, field: Rect, headings: &Headings)
        requires
            old(self).wf(),
            field.wf(),
            headings.wf(),
        ensures
            final(self).wf(),
            *final(self) == old(self).stepped(field, headings),
    {
        if self.is_alive {
            let (dx, dy) = headings.step_for(self.angle, self.speed);
            let px = shift(self.position.0, dx);
            let py = shift(self.position.1, dy);
            self.position = (px, py);
            self.check_boundary_collisions(field);
        }
    }

    fn check_boundary_collisions(&mut self, field: Rect)
        requires
            old(self).wf(),
            field.wf(),
        ensures
            final(self).wf(),
            *final(self) == (Bullet {
                angle: bounced(
                    field,
                    old(self).position.0 as int,
                    old(self).position.1 as int,
                    old(self).angle as int,
                ) as i64,
                ..*old(self)
            }),
    {
        let (px, py) = self.position;
        if px < field.x || px + 2 * BULLET_RADIUS > field.x + field.w {
            self.angle = flip_x(self.angle);
        }
        if py < field.y || py + 2 * BULLET_RADIUS > field.y + field.h {
            self.angle = flip_y(self.angle);
        }
    }
}

/// A live bullet whose step takes its box past the left or right wall, and not past
/// the top or bottom, leaves with heading `180 - a` (modulo a turn); past the top or
/// bottom and not the sides, with `360 - a`.
pub proof fn reflection_law(b: Bullet, field: Rect, h: &Headings)
    requires
        b.wf(),
        b.is_alive,
    ensures
        crosses_x(field, b.stepped(field, h).position.0 as int) && !crosses_y(
            field,
            b.stepped(field, h).position.1 as int,
        ) ==> b.stepped(field, h).angle == mirror_x(b.angle as int) && (b.stepped(field, h).angle
            + b.angle) % (FULL_TURN as int) == HALF_TURN,
        !crosses_x(field, b.stepped(field, h).position.0 as int) && crosses_y(
            field,
            b.stepped(field, h).position.1 as int,
        ) ==> b.stepped(field, h).angle == mirror_y(b.angle as int) && (b.stepped(field, h).angle
            + b.angle) % (FULL_TURN as int) == 0,
{
}

} // verus!
