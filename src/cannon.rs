use vstd::prelude::*;
use crate::bullet::{Bullet, BULLET_RADIUS, BULLET_SPEED};
use crate::geometry::{normalize, normalize_spec, Config, COORD_LIMIT, FULL_TURN, UNIT};
use crate::random::random_in;

verus! {

/// Cannon radius, in pixels.
pub const CANNON_RADIUS_PX: i64 = 20;

/// Cannon radius, in sub-pixel units.
pub const CANNON_RADIUS: i64 = CANNON_RADIUS_PX * UNIT;

/// Angular step of the aim sweep per tick, in tenths of a degree.
pub const CANNON_SPEED: i64 = 3;

/// Half-width of the aim sweep around the corner's neutral direction.
pub const CANNON_SWEEP: i64 = 600;

/// Ticks between two consecutive shots.
pub const FRAME_DELAY: u64 = 4;

/// A cannon pivoting at `(x, y)`: its aim sweeps `[min_angle, max_angle]` by
/// `barrel_move` per tick, and it fires what `load` gave it, one shot every
/// `FRAME_DELAY + 1` attempts.
#[derive(Clone, Copy, Debug)]
pub struct Cannon {
    pub id: u8,
    pub x: i64,
    pub y: i64,
    pub min_angle: i64,
    pub max_angle: i64,
    pub current_angle: i64,
    pub barrel_move: i64,
    pub speed: i64,
    pub loaded_shots: u64,
    pub shot_delay: u64,
    pub is_alive: bool,
}

/// Neutral aim of the cannon in a corner, in tenths of a degree.
pub open spec fn neutral_angle(is_left: bool, is_top: bool) -> int {
    if is_left {
        if is_top {
            450
        } else {
            3150
        }
    } else {
        if is_top {
            1350
        } else {
            2250
        }
    }
}

/// Pivot coordinate of a corner cannon along one axis, in pixels: one and a half
/// radii in from the near edge of the field.
pub open spec fn pivot_px(field_start: int, field_size: int, near: bool) -> int {
    if near {
        field_start + CANNON_RADIUS_PX * 3 / 2
    } else {
        field_start + field_size - CANNON_RADIUS_PX * 3 / 2
    }
}

/// Squared distance between two points.
pub open spec fn dist_sq(ax: int, ay: int, bx: int, by: int) -> int {
    (ax - bx) * (ax - bx) + (ay - by) * (ay - by)
}

impl Cannon {
    pub open spec fn wf(&self) -> bool {
        &&& -COORD_LIMIT <= self.x <= COORD_LIMIT
        &&& -COORD_LIMIT <= self.y <= COORD_LIMIT
        &&& -FULL_TURN <= self.min_angle <= self.current_angle <= self.max_angle < 2 * FULL_TURN
        &&& 0 < self.speed <= FULL_TURN
        &&& (self.barrel_move == self.speed || self.barrel_move == -self.speed)
        &&& self.shot_delay <= FRAME_DELAY
    }

    /// State after one `turn`.
    pub open spec fn turned(&self) -> Cannon {
        if !self.is_alive {
            *self
        } else {
            let a = self.current_angle + self.barrel_move;
            if a >= self.max_angle {
                Cannon { current_angle: self.max_angle, barrel_move: (-self.speed) as i64, ..*self }
            } else if a <= self.min_angle {
                Cannon { current_angle: self.min_angle, barrel_move: self.speed, ..*self }
            } else {
                Cannon { current_angle: a as i64, ..*self }
            }
        }
    }

    /// A fresh cannon of the corner given, pivoting one and a half radii in from both
    /// edges of the field, aiming somewhere in its sweep and turning toward its upper
    /// bound, unloaded, with its shot delay full, alive.
    pub open spec fn built_for_corner(&self, id: u8, is_left: bool, is_top: bool, cfg: Config) -> bool {
        &&& self.id == id
        &&& self.x == pivot_px(2 * cfg.border + cfg.side_width, cfg.field_size_spec(), is_left) * UNIT
        &&& self.y == pivot_px(cfg.border as int, cfg.field_size_spec(), is_top) * UNIT
        &&& self.min_angle == neutral_angle(is_left, is_top) - CANNON_SWEEP
        &&& self.max_angle == neutral_angle(is_left, is_top) + CANNON_SWEEP
        &&& self.min_angle <= self.current_angle < self.max_angle
        &&& self.barrel_move == CANNON_SPEED
        &&& self.speed == CANNON_SPEED
        &&& self.loaded_shots == 0
        &&& self.shot_delay == FRAME_DELAY
        &&& self.is_alive
    }

    /// State after `load(n)`.
    pub open spec fn loaded(&self, n: u64) -> Cannon {
        Cannon {
            loaded_shots: if self.is_alive {
                if self.loaded_shots + n > u64::MAX {
                    u64::MAX
                } else {
                    (self.loaded_shots + n) as u64
                }
            } else {
                self.loaded_shots
            },
            ..*self
        }
    }

    /// State and result after one `shoot`.
    pub open spec fn fired(&self) -> (Cannon, Option<Bullet>) {
        if !(self.is_alive && self.loaded_shots > 0) {
            (*self, None)
        } else if self.shot_delay > 0 {
            (Cannon { shot_delay: (self.shot_delay - 1) as u64, ..*self }, None)
        } else {
            (
                Cannon {
                    shot_delay: FRAME_DELAY,
                    loaded_shots: (self.loaded_shots - 1) as u64,
                    ..*self
                },
                Some(
                    Bullet {
                        cannon_id: self.id,
                        position: (self.x, self.y),
                        angle: normalize_spec(self.current_angle as int) as i64,
                        speed: BULLET_SPEED,
                        is_alive: true,
                    },
                ),
            )
        }
    }

    /// State after `n` calls of `turn`.
    pub open spec fn turned_n(&self, n: nat) -> Cannon
        decreases n,
    {
        if n == 0 {
            *self
        } else {
            self.turned_n((n - 1) as nat).turned()
        }
    }

    /// A cannon with a given sweep: it aims at `start` first and turns toward
    /// `max_angle`, unloaded and alive.
    pub fn with_sweep(
        id: u8,
        x: i64,
        y: i64,
        min_angle: i64,
        max_angle: i64,
        speed: i64,
        start: i64,
    ) -> (c: Cannon)
        requires
            -COORD_LIMIT <= x <= COORD_LIMIT,
            -COORD_LIMIT <= y <= COORD_LIMIT,
            -FULL_TURN <= min_angle <= start <= max_angle < 2 * FULL_TURN,
            0 < speed <= FULL_TURN,
        ensures
            c.wf(),
            c == (Cannon {
                id,
                x,
                y,
                min_angle,
                max_angle,
                current_angle: start,
                barrel_move: speed,
                speed,
                loaded_shots: 0,
                shot_delay: FRAME_DELAY,
                is_alive: true,
            }),
    {
        Cannon {
            id,
            x,
            y,
            min_angle,
            max_angle,
            current_angle: start,
            barrel_move: speed,
            speed,
            loaded_shots: 0,
            shot_delay: FRAME_DELAY,
            is_alive: true,
        }
    }

    /// The cannon of one corner of the field, aiming first at `start`, which must lie in
    /// its sweep.
    pub fn in_corner(id: u8, is_left: bool, is_top: bool, cfg: &Config, start: i64) -> (r: Option<Cannon>)
        requires
            cfg.wf(),
        ensures
            r is Some <==> (neutral_angle(is_left, is_top) - CANNON_SWEEP <= start
                <= neutral_angle(is_left, is_top) + CANNON_SWEEP),
            r matches Some(c) ==> c.wf() && c.id == id && c.x == pivot_px(
                2 * cfg.border + cfg.side_width,
                cfg.field_size_spec(),
                is_left,
            ) * UNIT && c.y == pivot_px(cfg.border as int, cfg.field_size_spec(), is_top) * UNIT
                && c.min_angle == neutral_angle(is_left, is_top) - CANNON_SWEEP && c.max_angle
                == neutral_angle(is_left, is_top) + CANNON_SWEEP && c.current_angle == start
                && c.barrel_move == CANNON_SPEED && c.speed == CANNON_SPEED && c.loaded_shots == 0
                && c.shot_delay == FRAME_DELAY && c.is_alive,
    {
        let size = cfg.field_size();
        let inset = CANNON_RADIUS_PX * 3 / 2;
        let h0 = 2 * cfg.border + cfg.side_width;
        let h = if is_left {
            h0 + inset
        } else {
            h0 + size - inset
        };
        let v = if is_top {
            cfg.border + inset
        } else {
            cfg.border + size - inset
        };
        let neutral: i64 = if is_left {
            if is_top {
                450
            } else {
                3150
            }
        } else {
            if is_top {
                1350
            } else {
                2250
            }
        };
        let min = neutral - CANNON_SWEEP;
        let max = neutral + CANNON_SWEEP;
        if start < min || start > max {
            return None;
        }
        Some(Cannon::with_sweep(id, h * UNIT, v * UNIT, min, max, CANNON_SPEED, start))
    }

    /// The cannon of one corner of the field, aiming first at a random angle of its
    /// sweep.
    pub fn new(id: u8, is_left: bool, is_top: bool, cfg: &Config) -> (c: Cannon)
        requires
            cfg.wf(),
        ensures
            c.wf(),
            c.built_for_corner(id, is_left, is_top, *cfg),
    {
        let neutral: i64 = if is_left {
            if is_top {
                450
            } else {
                3150
            }
        } else {
            if is_top {
                1350
            } else {
                2250
            }
        };
        let start = random_in(neutral - CANNON_SWEEP, neutral + CANNON_SWEEP);
        match Cannon::in_corner(id, is_left, is_top, cfg, start) {
            Some(c) => c,
            None => {
                proof {
                    assert(false);
                }
                Cannon::with_sweep(id, 0, 0, 0, 0, CANNON_SPEED, 0)
            },
        }
    }

    /// Advances the aim by one step; at a bound the aim stops there and the sweep
    /// reverses. A dead cannon does not move.
    pub fn turn(&mut self)
        requires
            old(self).wf(),
        ensures
            final(self).wf(),
            *final(self) == old(self).turned(),
    {
        if self.is_alive {
            let a = self.current_angle + self.barrel_move;
            if a >= self.max_angle {
                self.current_angle = self.max_angle;
                self.barrel_move = -self.speed;
            } else if a <= self.min_angle {
                self.current_angle = self.min_angle;
                self.barrel_move = self.speed;
            } else {
                self.current_angle = a;
            }
        }
    }

    /// Adds `num_shots` to the ammunition of a live cannon (saturating at the
    /// largest count).
    pub fn load(&mut self, num_shots: u64)
        requires
            old(self).wf(),
        ensures
            final(self).wf(),
            *final(self) == old(self).loaded(num_shots),
    {
        if self.is_alive {
            self.loaded_shots = self.loaded_shots.saturating_add(num_shots);
        }
    }

    /// One firing attempt. A live, loaded cannon counts its delay down; when the delay
    /// is spent it rearms the delay, uses one shot and returns a bullet from its pivot
    /// along its aim.
    pub fn shoot(&mut self) -> (r: Option<Bullet>)
        requires
            old(self).wf(),
        ensures
            final(self).wf(),
            (*final(self), r) == old(self).fired(),
            r matches Some(b) ==> b.wf(),
    {
        if self.is_alive && self.loaded_shots > 0 {
            if self.shot_delay > 0 {
                self.shot_delay -= 1;
            } else {
                self.shot_delay = FRAME_DELAY;
                self.loaded_shots -= 1;
                let angle = normalize(self.current_angle);
                return Some(Bullet::new(self.id, self.x, self.y, angle));
            }
        }
        None
    }

    /// Whether a live cannon is hit by a bullet of another cannon: their centres are
    /// closer than the two radii together.
    pub open spec fn hit_by(&self, b: &Bullet) -> bool {
        self.is_alive && self.id != b.cannon_id && dist_sq(
            self.x as int,
            self.y as int,
            b.position.0 as int,
            b.position.1 as int,
        ) < (CANNON_RADIUS + BULLET_RADIUS) * (CANNON_RADIUS + BULLET_RADIUS)
    }

    /// A hit (see `hit_by`) kills both the cannon and the bullet; otherwise nothing
    /// changes.
    pub fn check_collision(&mut self, bullet: &mut Bullet)
        requires
            old(self).wf(),
            old(bullet).wf(),
        ensures
            final(self).wf(),
            final(bullet).wf(),
            *final(self) == (Cannon {
                is_alive: old(self).is_alive && !old(self).hit_by(old(bullet)),
                ..*old(self)
            }),
            *final(bullet) == (Bullet {
                is_alive: old(bullet).is_alive && !old(self).hit_by(old(bullet)),
                ..*old(bullet)
            }),
    {
        if self.is_alive && self.id != bullet.cannon_id {
            let a = self.x as i128 - bullet.position.0 as i128;
            let b = self.y as i128 - bullet.position.1 as i128;
            let reach = (CANNON_RADIUS + BULLET_RADIUS) as i128;
            proof {
                assert(a * a <= 0x10_0000_0000_0000_0000_0000_0000) by (nonlinear_arith)
                    requires
                        -0x2_0000_0000_0000 <= a <= 0x2_0000_0000_0000,
                ;
                assert(b * b <= 0x10_0000_0000_0000_0000_0000_0000) by (nonlinear_arith)
                    requires
                        -0x2_0000_0000_0000 <= b <= 0x2_0000_0000_0000,
                ;
                assert(a * a >= 0 && b * b >= 0) by (nonlinear_arith);
            }
            if a * a + b * b < reach * reach {
                self.is_alive = false;
                bullet.is_alive = false;
            }
        }
    }
}

/// However many times a cannon turns, it keeps its sweep and its aim stays within it.
pub proof fn sweep_stays_in_range(c: Cannon, n: nat)
    requires
        c.wf(),
    ensures
        c.turned_n(n).wf(),
        c.turned_n(n).min_angle == c.min_angle,
        c.turned_n(n).max_angle == c.max_angle,
        c.min_angle <= c.turned_n(n).current_angle <= c.max_angle,
    decreases n,
{
    if n > 0 {
        sweep_stays_in_range(c, (n - 1) as nat);
    }
}

/// A live cannon's sweep reverses on a turn exactly when the aim reaches the bound it
/// was heading for.
pub proof fn sweep_reverses_at_bounds(c: Cannon)
    requires
        c.wf(),
        c.is_alive,
    ensures
        (c.turned().barrel_move != c.barrel_move) <==> ((c.barrel_move > 0
            && c.turned().current_angle == c.max_angle) || (c.barrel_move < 0
            && c.turned().current_angle == c.min_angle)),
{
}

} // verus!
