use vstd::prelude::*;
use crate::geometry::{Config, Headings, Rect, UNIT};
use crate::puck::{Puck, PUCK_RADIUS, PUCK_SPEED};
use crate::random::random_in;

verus! {

/// Width of the board's frame, in sub-pixel units.
pub const BOUNDARY_WIDTH: i64 = 10 * UNIT;

/// Width of the divider drawn between the two wells, in sub-pixel units.
pub const WELL_DIVIDER_WIDTH: i64 = 20 * UNIT;

/// Narrowest either well may become: the fire well starts at this width, the
/// multiplier well shrinks toward it.
pub const MIN_WELL_WIDTH: i64 = 100 * UNIT;

/// Time between two spawned pucks, in microseconds.
pub const NEW_PUCK_TIME: i64 = 80_000_000;

/// Depth of the wells, in sub-pixel units.
pub const WELL_DEPTH: i64 = 20 * UNIT;

/// Most active pucks on a board at once.
pub const MAX_PUCKS: usize = 6;

/// How far the divider moves into the multiplier well per multiplier hit.
pub const WELL_WIDTH_INCREMENT: i64 = 150_000;

/// Spawn headings are drawn from `[SPAWN_ANGLE_MIN, SPAWN_ANGLE_MAX)`.
pub const SPAWN_ANGLE_MIN: i64 = 100;

pub const SPAWN_ANGLE_MAX: i64 = 1700;

/// Bound on a board's position and extent, in sub-pixel units.
pub const BOARD_LIMIT: i64 = 0x4000_0000_0000;

/// Largest elapsed time a board keeps count of; it saturates there.
pub const TIME_LIMIT: i64 = 0x7fff_ffff_ffff_ffff;

/// Number of pins in the lattice: rows of four and three, alternating.
pub const PIN_COUNT: usize = 14;

/// A scoring event: the board `id` banked `num_shots` shots.
#[derive(Clone, Copy, Debug, PartialEq, Eq, Structural)]
pub struct PlinkoEvent {
    pub id: u8,
    pub num_shots: u64,
}

impl PlinkoEvent {
    pub fn new(id: u8, num_shots: u64) -> (e: PlinkoEvent)
        ensures
            e == (PlinkoEvent { id, num_shots }),
    {
        PlinkoEvent { id, num_shots }
    }
}

/// The multiplier doubled, saturating at the largest count.
pub open spec fn doubled(c: u64) -> u64 {
    if c > u64::MAX / 2 {
        u64::MAX
    } else {
        (2 * c) as u64
    }
}

/// `2` to the power `n`.
pub open spec fn two_to(n: nat) -> nat
    decreases n,
{
    if n == 0 {
        1
    } else {
        2 * two_to((n - 1) as nat)
    }
}

/// Multiplier, divider position and events after the pucks of `s` meet the wells in
/// order: a puck on the multiplier well doubles the multiplier and moves the
/// divider by `WELL_WIDTH_INCREMENT` toward `well_max`, never past it, so that the
/// multiplier well narrows with every hit; else a puck on
/// the fire well banks the multiplier as an event and resets it to 1.
pub open spec fn settle(
    s: Seq<Puck>,
    multi: Rect,
    fire: Rect,
    id: u8,
    count: u64,
    well: int,
    well_max: int,
) -> (u64, int, Seq<PlinkoEvent>)
    decreases s.len(),
{
    if s.len() == 0 {
        (count, well, Seq::empty())
    } else {
        let prev = settle(s.drop_last(), multi, fire, id, count, well, well_max);
        let p = s.last();
        if p.touches_rect(multi) {
            (
                doubled(prev.0),
                if prev.1 + WELL_WIDTH_INCREMENT < well_max {
                    prev.1 + WELL_WIDTH_INCREMENT
                } else {
                    well_max
                },
                prev.2,
            )
        } else if p.touches_rect(fire) {
            (1, prev.1, prev.2.push(PlinkoEvent { id, num_shots: prev.0 }))
        } else {
            prev
        }
    }
}

/// The pucks of `s` that touch neither well, in order.
pub open spec fn survivors(s: Seq<Puck>, multi: Rect, fire: Rect) -> Seq<Puck>
    decreases s.len(),
{
    if s.len() == 0 {
        Seq::empty()
    } else {
        let prev = survivors(s.drop_last(), multi, fire);
        let p = s.last();
        if p.touches_rect(multi) || p.touches_rect(fire) {
            prev
        } else {
            prev.push(p)
        }
    }
}

/// Every puck of `s` after one step against `bounds`.
pub open spec fn stepped_all(s: Seq<Puck>, bounds: Rect, h: &Headings) -> Seq<Puck> {
    Seq::new(s.len(), |i: int| s[i].stepped(bounds, h))
}

/// Row of the `k`-th pin, counted from 1.
pub open spec fn pin_row(k: int) -> int {
    if k < 4 {
        1
    } else if k < 7 {
        2
    } else if k < 11 {
        3
    } else {
        4
    }
}

/// Index of the first pin of row `v`.
pub open spec fn row_start(v: int) -> int {
    if v == 1 {
        0
    } else if v == 2 {
        4
    } else if v == 3 {
        7
    } else {
        11
    }
}

/// Centre of the `k`-th pin: rows `vspace` apart, pins `hspace` apart, even rows
/// shifted by half a space.
pub open spec fn pin_position(origin: (i64, i64), hspace: int, vspace: int, k: int) -> (int, int) {
    let v = pin_row(k);
    let h = k - row_start(v);
    let offset = if v % 2 == 0 {
        hspace / 2
    } else {
        0
    };
    (origin.0 + BOUNDARY_WIDTH + hspace * h + offset, origin.1 + vspace * v - PUCK_RADIUS)
}

/// The bonus board of one player.
pub struct Plinko {
    pub id: u8,
    pub position: (i64, i64),
    pub width: i64,
    pub height: i64,
    pub pins: Vec<Puck>,
    pub pucks: Vec<Puck>,
    pub time: i64,
    pub well_x: i64,
    pub shot_count: u64,
    pub is_alive: bool,
}

impl Plinko {
    /// Furthest the divider goes: the multiplier well at its narrowest.
    pub open spec fn well_max(&self) -> int {
        self.position.0 + self.width - BOUNDARY_WIDTH - MIN_WELL_WIDTH
    }

    /// Where the divider starts: the fire well at its narrowest, the multiplier well
    /// the larger side.
    pub open spec fn well_start(&self) -> int {
        self.position.0 + BOUNDARY_WIDTH + MIN_WELL_WIDTH
    }

    /// Width of the range of spawn offsets.
    pub open spec fn spawn_span(&self) -> int {
        self.width - 2 * PUCK_RADIUS - 2 * BOUNDARY_WIDTH
    }

    pub open spec fn wf(&self) -> bool {
        &&& -BOARD_LIMIT <= self.position.0 <= BOARD_LIMIT
        &&& -BOARD_LIMIT <= self.position.1 <= BOARD_LIMIT
        &&& 2 * (BOUNDARY_WIDTH + MIN_WELL_WIDTH) <= self.width <= BOARD_LIMIT
        &&& 2 * BOUNDARY_WIDTH <= self.height <= BOARD_LIMIT
        &&& self.well_start() <= self.well_x <= self.well_max()
        &&& 0 <= self.time
        &&& 1 <= self.shot_count
        &&& self.pucks@.len() <= MAX_PUCKS
        &&& forall|i: int|
            0 <= i < self.pucks@.len() ==> (#[trigger] self.pucks@[i]).wf()
                && self.pucks@[i].is_alive && self.pucks@[i].speed > 0
        &&& forall|i: int| 0 <= i < self.pins@.len() ==> (#[trigger] self.pins@[i]).wf()
    }

    /// The playfield inside the frame.
    pub open spec fn interior_spec(&self) -> Rect {
        Rect {
            x: (self.position.0 + BOUNDARY_WIDTH) as i64,
            y: (self.position.1 + BOUNDARY_WIDTH) as i64,
            w: (self.width - 2 * BOUNDARY_WIDTH) as i64,
            h: (self.height - 2 * BOUNDARY_WIDTH) as i64,
        }
    }

    /// The fire well, from the left edge to the divider at `well`.
    pub open spec fn fire_rect_spec(&self, well: int) -> Rect {
        Rect {
            x: self.position.0,
            y: (self.position.1 + self.height - WELL_DEPTH / 2 - BOUNDARY_WIDTH) as i64,
            w: (well - self.position.0) as i64,
            h: (WELL_DEPTH / 2) as i64,
        }
    }

    /// The multiplier well, from the divider at `well` to the right edge.
    pub open spec fn multi_rect_spec(&self, well: int) -> Rect {
        Rect {
            x: well as i64,
            y: (self.position.1 + self.height - WELL_DEPTH / 2 - BOUNDARY_WIDTH) as i64,
            w: (self.position.0 + self.width - well) as i64,
            h: (WELL_DEPTH / 2) as i64,
        }
    }

    /// Elapsed time after `dt` more, saturating.
    pub open spec fn timed(&self, dt: int) -> int {
        if self.time + dt > TIME_LIMIT {
            TIME_LIMIT as int
        } else {
            self.time + dt
        }
    }

    /// The puck that a spawn with offset `off` and heading `angle` adds.
    pub open spec fn spawned_puck(&self, off: int, angle: int) -> Puck {
        Puck {
            position: (
                (self.position.0 + PUCK_RADIUS + BOUNDARY_WIDTH + off) as i64,
                (self.position.1 + BOUNDARY_WIDTH + 3 * PUCK_RADIUS / 2) as i64,
            ),
            angle: angle as i64,
            speed: PUCK_SPEED,
            is_alive: true,
        }
    }

    /// Whether a puck is added at elapsed time `t`: one per `NEW_PUCK_TIME` elapsed,
    /// up to `MAX_PUCKS` at once.
    pub open spec fn spawn_due(&self, t: int) -> bool {
        t / (NEW_PUCK_TIME as int) >= self.pucks@.len() && self.pucks@.len() < MAX_PUCKS
    }

    /// The active pucks after a spawn (if one is due) and one step.
    pub open spec fn moved_pucks(&self, dt: int, off: int, angle: int, h: &Headings) -> Seq<Puck> {
        let spawned = if self.spawn_due(self.timed(dt)) {
            self.pucks@.push(self.spawned_puck(off, angle))
        } else {
            self.pucks@
        };
        stepped_all(spawned, self.interior_spec(), h)
    }

    /// `new` and `events` are what one update of `self` by `dt` gives, with spawn
    /// offset `off` and heading `angle`: the clock advances, a puck may spawn, every
    /// puck steps, and the pucks that reach a well are settled (see `settle`) and
    /// removed. A dead board does not change and reports nothing.
    pub open spec fn updated_to(
        &self,
        new: &Plinko,
        events: Seq<PlinkoEvent>,
        dt: int,
        off: int,
        angle: int,
        h: &Headings,
    ) -> bool {
        &&& new.id == self.id
        &&& new.position == self.position
        &&& new.width == self.width
        &&& new.height == self.height
        &&& new.pins@ == self.pins@
        &&& new.is_alive == self.is_alive
        &&& if !self.is_alive {
            &&& new.pucks@ == self.pucks@
            &&& new.time == self.time
            &&& new.well_x == self.well_x
            &&& new.shot_count == self.shot_count
            &&& events.len() == 0
        } else {
            let moved = self.moved_pucks(dt, off, angle, h);
            let multi = self.multi_rect_spec(self.well_x as int);
            let fire = self.fire_rect_spec(self.well_x as int);
            let res = settle(moved, multi, fire, self.id, self.shot_count, self.well_x as int, self.well_max());
            &&& new.time == self.timed(dt)
            &&& new.pucks@ == survivors(moved, multi, fire)
            &&& new.shot_count == res.0
            &&& new.well_x == res.1
            &&& events == res.2
        }
    }

    /// `new` and `events` are what one update by `dt` gives for some spawn offset and
    /// heading of the ranges that spawns draw from.
    pub open spec fn advanced_to(
        &self,
        new: &Plinko,
        events: Seq<PlinkoEvent>,
        dt: int,
        h: &Headings,
    ) -> bool {
        exists|off: int, angle: int|
            0 <= off < self.spawn_span() && SPAWN_ANGLE_MIN <= angle < SPAWN_ANGLE_MAX
                && #[trigger] self.updated_to(new, events, dt, off, angle, h)
    }

    /// A board just built at `position` for `cfg`: the pin lattice, no active pucks,
    /// the clock at zero, the divider at its start, multiplier 1, alive.
    pub open spec fn fresh(&self, id: u8, position: (i64, i64), cfg: Config) -> bool {
        &&& self.id == id
        &&& self.position == position
        &&& self.width == cfg.side_width * UNIT
        &&& self.height == cfg.half_edges * cfg.cell_width * UNIT
        &&& self.pins@.len() == PIN_COUNT
        &&& forall|k: int|
            0 <= k < PIN_COUNT ==> {
                let c = pin_position(
                    position,
                    ((cfg.side_width - 20) / 3) * UNIT,
                    ((cfg.half_edges * cfg.cell_width) / 5) * UNIT,
                    k,
                );
                #[trigger] self.pins@[k] == Puck {
                    position: (c.0 as i64, c.1 as i64),
                    angle: 0,
                    speed: -1i64,
                    is_alive: true,
                }
            }
        &&& self.pucks@.len() == 0
        &&& self.time == 0
        &&& self.well_x == self.well_start()
        &&& self.shot_count == 1
        &&& self.is_alive
    }

    /// A board at `position` (its top-left corner, in sub-pixel units) as wide as a
    /// side panel and half the field high: the pin lattice, no active pucks, the
    /// divider leaving the fire well its minimum width and the rest to the multiplier
    /// well, multiplier 1.
    pub fn new(id: u8, position: (i64, i64), cfg: &Config) -> (p: Plinko)
        requires
            cfg.wf(),
            2 * (BOUNDARY_WIDTH + MIN_WELL_WIDTH) <= cfg.side_width * UNIT,
            2 * BOUNDARY_WIDTH <= cfg.half_edges * cfg.cell_width * UNIT,
            -BOARD_LIMIT <= position.0 <= BOARD_LIMIT,
            -BOARD_LIMIT <= position.1 <= BOARD_LIMIT,
        ensures
            p.wf(),
            p.fresh(id, position, *cfg),
    {
        let width = cfg.side_width * UNIT;
        proof {
            assert(1 <= cfg.half_edges * cfg.cell_width <= 10_000_000) by (nonlinear_arith)
                requires
                    1 <= cfg.half_edges <= 1000,
                    1 <= cfg.cell_width <= 10_000,
            ;
        }
        let board_px = cfg.half_edges * cfg.cell_width;
        let height = board_px * UNIT;
        let hspace = ((cfg.side_width - 20) / 3) * UNIT;
        let vspace = (board_px / 5) * UNIT;
        let mut pins: Vec<Puck> = Vec::new();
        let mut k: usize = 0;
        while k < PIN_COUNT
            invariant
                k <= PIN_COUNT,
                pins@.len() == k,
                -BOARD_LIMIT <= position.0 <= BOARD_LIMIT,
                -BOARD_LIMIT <= position.1 <= BOARD_LIMIT,
                0 <= hspace <= 10_000 * UNIT,
                0 <= vspace <= 2_000_000 * UNIT,
                forall|j: int|
                    0 <= j < k ==> {
                        let c = pin_position(position, hspace as int, vspace as int, j);
                        #[trigger] pins@[j] == Puck {
                            position: (c.0 as i64, c.1 as i64),
                            angle: 0,
                            speed: -1i64,
                            is_alive: true,
                        }
                    },
                forall|j: int| 0 <= j < k ==> (#[trigger] pins@[j]).wf(),
            decreases PIN_COUNT - k,
        {
            let v: i64 = if k < 4 {
                1
            } else if k < 7 {
                2
            } else if k < 11 {
                3
            } else {
                4
            };
            let start: i64 = if v == 1 {
                0
            } else if v == 2 {
                4
            } else if v == 3 {
                7
            } else {
                11
            };
            let h = k as i64 - start;
            let offset = if v % 2 == 0 {
                hspace / 2
            } else {
                0
            };
            proof {
                assert(0 <= h <= 3);
                assert(0 <= hspace * h <= 30_000 * UNIT) by (nonlinear_arith)
                    requires
                        0 <= h <= 3,
                        0 <= hspace <= 10_000 * UNIT,
                ;
                assert(0 <= vspace * v <= 8_000_000 * UNIT) by (nonlinear_arith)
                    requires
                        1 <= v <= 4,
                        0 <= vspace <= 2_000_000 * UNIT,
                ;
            }
            let pin = Puck::new_fixed(
                (
                    position.0 + BOUNDARY_WIDTH + hspace * h + offset,
                    position.1 + vspace * v - PUCK_RADIUS,
                ),
            );
            pins.push(pin);
            k += 1;
        }
        Plinko {
            id,
            position,
            width,
            height,
            pins,
            pucks: Vec::new(),
            time: 0,
            well_x: position.0 + BOUNDARY_WIDTH + MIN_WELL_WIDTH,
            shot_count: 1,
            is_alive: true,
        }
    }
}

} // verus!

verus! {

impl Plinko {
    pub fn interior(&self) -> (r: Rect)
        requires
            self.wf(),
        ensures
            r == self.interior_spec(),
            r.wf(),
    {
        Rect {
            x: self.position.0 + BOUNDARY_WIDTH,
            y: self.position.1 + BOUNDARY_WIDTH,
            w: self.width - 2 * BOUNDARY_WIDTH,
            h: self.height - 2 * BOUNDARY_WIDTH,
        }
    }

    pub fn get_fire_rect(&self) -> (r: Rect)
        requires
            self.wf(),
        ensures
            r == self.fire_rect_spec(self.well_x as int),
            r.wf(),
    {
        Rect {
            x: self.position.0,
            y: self.position.1 + self.height - WELL_DEPTH / 2 - BOUNDARY_WIDTH,
            w: self.well_x - self.position.0,
            h: WELL_DEPTH / 2,
        }
    }

    pub fn get_multi_rect(&self) -> (r: Rect)
        requires
            self.wf(),
        ensures
            r == self.multi_rect_spec(self.well_x as int),
            r.wf(),
    {
        Rect {
            x: self.well_x,
            y: self.position.1 + self.height - WELL_DEPTH / 2 - BOUNDARY_WIDTH,
            w: self.position.0 + self.width - self.well_x,
            h: WELL_DEPTH / 2,
        }
    }

    /// The divider between the wells, centred on `well_x`, a full well deep.
    pub fn get_divider_rect(&self) -> (r: Rect)
        requires
            self.wf(),
        ensures
            r == (Rect {
                x: (self.well_x - WELL_DIVIDER_WIDTH / 2) as i64,
                y: (self.position.1 + self.height - WELL_DEPTH - BOUNDARY_WIDTH) as i64,
                w: WELL_DIVIDER_WIDTH,
                h: WELL_DEPTH,
            }),
    {
        Rect {
            x: self.well_x - WELL_DIVIDER_WIDTH / 2,
            y: self.position.1 + self.height - WELL_DEPTH - BOUNDARY_WIDTH,
            w: WELL_DIVIDER_WIDTH,
            h: WELL_DEPTH,
        }
    }

    /// Settles every active puck against the wells as they stand now (see `settle`),
    /// keeps the pucks that reached neither, and returns the events in order.
    fn check_collisions(&mut self) -> (events: Vec<PlinkoEvent>)
        requires
            old(self).wf(),
        ensures
            final(self).wf(),
            ({
                let multi = old(self).multi_rect_spec(old(self).well_x as int);
                let fire = old(self).fire_rect_spec(old(self).well_x as int);
                let res = settle(
                    old(self).pucks@,
                    multi,
                    fire,
                    old(self).id,
                    old(self).shot_count,
                    old(self).well_x as int,
                    old(self).well_max(),
                );
                &&& final(self).pucks@ == survivors(old(self).pucks@, multi, fire)
                &&& final(self).shot_count == res.0
                &&& final(self).well_x == res.1
                &&& events@ == res.2
            }),
            final(self).id == old(self).id,
            final(self).position == old(self).position,
            final(self).width == old(self).width,
            final(self).height == old(self).height,
            final(self).pins@ == old(self).pins@,
            final(self).time == old(self).time,
            final(self).is_alive == old(self).is_alive,
    {
        let multi = self.get_multi_rect();
        let fire = self.get_fire_rect();
        let well_max = self.position.0 + self.width - BOUNDARY_WIDTH - MIN_WELL_WIDTH;
        let ghost s = self.pucks@;
        let mut count = self.shot_count;
        let mut well = self.well_x;
        let mut events: Vec<PlinkoEvent> = Vec::new();
        let mut kept: Vec<Puck> = Vec::new();
        let mut i: usize = 0;
        while i < self.pucks.len()
            invariant
                self.wf(),
                s == self.pucks@,
                i <= s.len(),
                multi == self.multi_rect_spec(self.well_x as int),
                fire == self.fire_rect_spec(self.well_x as int),
                well_max == self.well_max(),
                self.well_x <= well <= well_max,
                1 <= count,
                kept@.len() <= i,
                forall|j: int|
                    0 <= j < kept@.len() ==> (#[trigger] kept@[j]).wf() && kept@[j].is_alive
                        && kept@[j].speed > 0,
                kept@ == survivors(s.take(i as int), multi, fire),
                (count, well as int, events@) == settle(
                    s.take(i as int),
                    multi,
                    fire,
                    self.id,
                    self.shot_count,
                    self.well_x as int,
                    well_max as int,
                ),
            decreases s.len() - i,
        {
            let p = self.pucks[i];
            proof {
                assert(s.take(i as int + 1).drop_last() =~= s.take(i as int));
                assert(s.take(i as int + 1).last() == s[i as int]);
            }
            if p.collides_with(multi) {
                count = if count > u64::MAX / 2 {
                    u64::MAX
                } else {
                    2 * count
                };
                let moved = well + WELL_WIDTH_INCREMENT;
                well = if moved < well_max {
                    moved
                } else {
                    well_max
                };
            } else if p.collides_with(fire) {
                events.push(PlinkoEvent::new(self.id, count));
                count = 1;
            } else {
                kept.push(p);
            }
            i += 1;
        }
        proof {
            assert(s.take(s.len() as int) =~= s);
        }
        self.shot_count = count;
        self.well_x = well;
        self.pucks = kept;
        events
    }

    /// One tick of a live board with the spawn offset and heading given: see
    /// `updated_to`.
    pub fn update_with(
        &mut self,
        delta_time: i64,
        spawn_offset: i64,
        spawn_angle: i64,
        headings: &Headings,
    ) -> (events: Vec<PlinkoEvent>)
        requires
            old(self).wf(),
            headings.wf(),
            0 <= delta_time,
            0 <= spawn_offset < old(self).spawn_span(),
            SPAWN_ANGLE_MIN <= spawn_angle < SPAWN_ANGLE_MAX,
        ensures
            final(self).wf(),
            old(self).updated_to(
                &*final(self),
                events@,
                delta_time as int,
                spawn_offset as int,
                spawn_angle as int,
                headings,
            ),
    {
        if !self.is_alive {
            return Vec::new();
        }
        let ghost before = *self;
        self.time = if self.time > TIME_LIMIT - delta_time {
            TIME_LIMIT
        } else {
            self.time + delta_time
        };
        let n = self.pucks.len();
        if self.time / NEW_PUCK_TIME >= n as i64 && n < MAX_PUCKS {
            let puck = Puck::new_active(
                (
                    self.position.0 + PUCK_RADIUS + BOUNDARY_WIDTH + spawn_offset,
                    self.position.1 + BOUNDARY_WIDTH + 3 * PUCK_RADIUS / 2,
                ),
                spawn_angle,
            );
            self.pucks.push(puck);
        }
        let ghost spawned = self.pucks@;
        let bounds = self.interior();
        let mut moved: Vec<Puck> = Vec::new();
        let mut i: usize = 0;
        while i < self.pucks.len()
            invariant
                self.wf(),
                headings.wf(),
                bounds.wf(),
                spawned == self.pucks@,
                i <= spawned.len(),
                moved@.len() == i,
                forall|j: int| 0 <= j < i ==> #[trigger] moved@[j] == spawned[j].stepped(bounds, headings),
                forall|j: int|
                    0 <= j < i ==> (#[trigger] moved@[j]).wf() && moved@[j].is_alive
                        && moved@[j].speed > 0,
            decreases spawned.len() - i,
        {
            let mut p = self.pucks[i];
            p.step(bounds, headings);
            moved.push(p);
            i += 1;
        }
        proof {
            assert(moved@ =~= stepped_all(spawned, bounds, headings));
            assert(spawned =~= (if before.spawn_due(before.timed(delta_time as int)) {
                before.pucks@.push(before.spawned_puck(spawn_offset as int, spawn_angle as int))
            } else {
                before.pucks@
            }));
        }
        self.pucks = moved;
        self.check_collisions()
    }

    /// One tick of the board by `delta_time` microseconds, with a random spawn offset
    /// and heading; the events it returns are for the caller to apply after every board
    /// has been updated.
    pub fn update(&mut self, delta_time: i64, headings: &Headings) -> (events: Vec<PlinkoEvent>)
        requires
            old(self).wf(),
            headings.wf(),
            0 <= delta_time,
        ensures
            final(self).wf(),
            old(self).advanced_to(&*final(self), events@, delta_time as int, headings),
            final(self).id == old(self).id,
    {
        let span = self.width - 2 * PUCK_RADIUS - 2 * BOUNDARY_WIDTH;
        let off = random_in(0, span);
        let angle = random_in(SPAWN_ANGLE_MIN, SPAWN_ANGLE_MAX);
        self.update_with(delta_time, off, angle, headings)
    }
}

/// Of `settle`: with the multiplier at 1, `n` pucks on the multiplier well (and on
/// neither well's neighbour) followed by one on the fire well bank exactly one event,
/// carrying `2^n` shots, for `n` up to 63.
pub proof fn multiplier_doubles_per_hit(
    s: Seq<Puck>,
    multi: Rect,
    fire: Rect,
    id: u8,
    well: int,
    well_max: int,
    n: nat,
)
    requires
        n <= 63,
        s.len() == n + 1,
        forall|i: int| 0 <= i < n ==> (#[trigger] s[i]).touches_rect(multi),
        !s[n as int].touches_rect(multi),
        s[n as int].touches_rect(fire),
    ensures
        settle(s, multi, fire, id, 1, well, well_max).2 == seq![
            PlinkoEvent { id, num_shots: two_to(n) as u64 },
        ],
        settle(s, multi, fire, id, 1, well, well_max).0 == 1,
{
    let d = s.drop_last();
    assert forall|i: int| 0 <= i < d.len() implies (#[trigger] d[i]).touches_rect(multi) by {
        assert(d[i] == s[i]);
    }
    lemma_multi_run(d, multi, fire, id, well, well_max, 0);
    assert(s.last() == s[n as int]);
}

proof fn lemma_two_to_bound(n: nat)
    requires
        n <= 62,
    ensures
        1 <= two_to(n) <= 0x4000_0000_0000_0000,
{
    lemma_two_to_monotonic(0, n);
    lemma_two_to_monotonic(n, 62);
    reveal_with_fuel(two_to, 63);
}

proof fn lemma_two_to_monotonic(m: nat, n: nat)
    requires
        m <= n,
    ensures
        two_to(m) <= two_to(n),
    decreases n - m,
{
    if m < n {
        lemma_two_to_monotonic(m, (n - 1) as nat);
    }
}

} // verus!

verus! {

/// Every event of `settle` carries the board's id.
pub proof fn lemma_settle_ids(
    s: Seq<Puck>,
    multi: Rect,
    fire: Rect,
    id: u8,
    count: u64,
    well: int,
    well_max: int,
)
    ensures
        forall|j: int|
            0 <= j < settle(s, multi, fire, id, count, well, well_max).2.len() ==> (#[trigger] settle(
                s,
                multi,
                fire,
                id,
                count,
                well,
                well_max,
            ).2[j]).id == id,
    decreases s.len(),
{
    if s.len() > 0 {
        lemma_settle_ids(s.drop_last(), multi, fire, id, count, well, well_max);
        let prev = settle(s.drop_last(), multi, fire, id, count, well, well_max).2;
        let cur = settle(s, multi, fire, id, count, well, well_max).2;
        assert forall|j: int| 0 <= j < cur.len() implies (#[trigger] cur[j]).id == id by {
            if j < prev.len() {
                assert(prev[j].id == id);
            }
        }
    }
}

} // verus!

verus! {

/// Settling one run of pucks and then another, starting from where the first left the
/// multiplier and the divider, is settling both runs together: the multiplier carries
/// over from one update to the next, and the events follow one another.
pub proof fn settle_in_two_runs(
    s1: Seq<Puck>,
    s2: Seq<Puck>,
    multi: Rect,
    fire: Rect,
    id: u8,
    count: u64,
    well: int,
    well_max: int,
)
    ensures
        ({
            let first = settle(s1, multi, fire, id, count, well, well_max);
            let second = settle(s2, multi, fire, id, first.0, first.1, well_max);
            let both = settle(s1 + s2, multi, fire, id, count, well, well_max);
            &&& both.0 == second.0
            &&& both.1 == second.1
            &&& both.2 == first.2 + second.2
        }),
    decreases s2.len(),
{
    let first = settle(s1, multi, fire, id, count, well, well_max);
    if s2.len() == 0 {
        assert(s1 + s2 =~= s1);
        assert(first.2 + Seq::<PlinkoEvent>::empty() =~= first.2);
    } else {
        settle_in_two_runs(s1, s2.drop_last(), multi, fire, id, count, well, well_max);
        assert((s1 + s2).drop_last() =~= s1 + s2.drop_last());
        assert((s1 + s2).last() == s2.last());
        let prev = settle(s2.drop_last(), multi, fire, id, first.0, first.1, well_max);
        assert forall|e: PlinkoEvent| (first.2 + prev.2).push(e) =~= first.2 + prev.2.push(e) by {}
    }
}

} // verus!

verus! {

/// Pucks that touch neither well leave multiplier and divider alone and report nothing.
proof fn lemma_no_well(
    s: Seq<Puck>,
    multi: Rect,
    fire: Rect,
    id: u8,
    count: u64,
    well: int,
    well_max: int,
)
    requires
        forall|i: int|
            0 <= i < s.len() ==> !(#[trigger] s[i]).touches_rect(multi) && !s[i].touches_rect(fire),
    ensures
        settle(s, multi, fire, id, count, well, well_max) == (count, well, Seq::<PlinkoEvent>::empty()),
    decreases s.len(),
{
    if s.len() > 0 {
        assert forall|i: int| 0 <= i < s.len() - 1 implies !(#[trigger] s.drop_last()[i]).touches_rect(
            multi,
        ) && !s.drop_last()[i].touches_rect(fire) by {
            assert(s.drop_last()[i] == s[i]);
        }
        lemma_no_well(s.drop_last(), multi, fire, id, count, well, well_max);
        assert(s.last() == s[s.len() - 1]);
    }
}

/// A run of `n` multiplier hits takes the multiplier from `2^k` to `2^(k + n)`
/// (while that stays within 63 doublings) and reports nothing.
proof fn lemma_multi_run(
    s: Seq<Puck>,
    multi: Rect,
    fire: Rect,
    id: u8,
    well: int,
    well_max: int,
    k: nat,
)
    requires
        k + s.len() <= 63,
        forall|i: int| 0 <= i < s.len() ==> (#[trigger] s[i]).touches_rect(multi),
    ensures
        settle(s, multi, fire, id, two_to(k) as u64, well, well_max).0 == two_to(k + s.len()),
        settle(s, multi, fire, id, two_to(k) as u64, well, well_max).2.len() == 0,
    decreases s.len(),
{
    lemma_two_to_monotonic(k, 63);
    reveal_with_fuel(two_to, 64);
    if s.len() > 0 {
        assert forall|i: int| 0 <= i < s.len() - 1 implies (#[trigger] s.drop_last()[i]).touches_rect(
            multi,
        ) by {
            assert(s.drop_last()[i] == s[i]);
        }
        lemma_multi_run(s.drop_last(), multi, fire, id, well, well_max, k);
        lemma_two_to_bound((k + s.len() - 1) as nat);
        assert(s.last() == s[s.len() - 1]);
        assert(two_to(k + s.len()) == 2 * two_to((k + s.len() - 1) as nat));
    }
}

/// One puck on the fire well alone, the others on neither well: exactly one event,
/// carrying the multiplier, which falls back to 1.
proof fn lemma_single_fire(
    s: Seq<Puck>,
    multi: Rect,
    fire: Rect,
    id: u8,
    count: u64,
    well: int,
    well_max: int,
    j: int,
)
    requires
        0 <= j < s.len(),
        s[j].touches_rect(fire),
        !s[j].touches_rect(multi),
        forall|i: int|
            0 <= i < s.len() && i != j ==> !(#[trigger] s[i]).touches_rect(multi) && !s[i].touches_rect(
                fire,
            ),
    ensures
        settle(s, multi, fire, id, count, well, well_max).0 == 1,
        settle(s, multi, fire, id, count, well, well_max).2 == seq![PlinkoEvent { id, num_shots: count }],
    decreases s.len(),
{
    let d = s.drop_last();
    assert forall|i: int| 0 <= i < d.len() implies #[trigger] d[i] == s[i] by {}
    if j == s.len() - 1 {
        assert forall|i: int| 0 <= i < d.len() implies !(#[trigger] d[i]).touches_rect(multi)
            && !d[i].touches_rect(fire) by {
            assert(d[i] == s[i]);
        }
        lemma_no_well(d, multi, fire, id, count, well, well_max);
        assert(s.last() == s[j]);
        assert(Seq::<PlinkoEvent>::empty().push(PlinkoEvent { id, num_shots: count }) =~= seq![
            PlinkoEvent { id, num_shots: count },
        ]);
    } else {
        assert forall|i: int| 0 <= i < d.len() && i != j implies !(#[trigger] d[i]).touches_rect(
            multi,
        ) && !d[i].touches_rect(fire) by {
            assert(d[i] == s[i]);
        }
        lemma_single_fire(d, multi, fire, id, count, well, well_max, j);
        assert(s.last() == s[s.len() - 1]);
    }
}

impl Plinko {
    /// The pucks that meet the wells in an update with these draws.
    pub open spec fn settling(&self, dt: int, off: int, angle: int, h: &Headings) -> Seq<Puck> {
        self.moved_pucks(dt, off, angle, h)
    }

    /// Every puck that meets the wells in this update lands on the multiplier well.
    pub open spec fn all_multiplier_hits(&self, dt: int, off: int, angle: int, h: &Headings) -> bool {
        let s = self.settling(dt, off, angle, h);
        forall|i: int|
            0 <= i < s.len() ==> (#[trigger] s[i]).touches_rect(
                self.multi_rect_spec(self.well_x as int),
            )
    }

    /// Exactly one puck reaches a well in this update, and it reaches the fire well only.
    pub open spec fn single_fire_hit(&self, dt: int, off: int, angle: int, h: &Headings) -> bool {
        let s = self.settling(dt, off, angle, h);
        let multi = self.multi_rect_spec(self.well_x as int);
        let fire = self.fire_rect_spec(self.well_x as int);
        exists|j: int|
            0 <= j < s.len() && (#[trigger] s[j]).touches_rect(fire) && !s[j].touches_rect(multi)
                && forall|i: int|
                0 <= i < s.len() && i != j ==> !(#[trigger] s[i]).touches_rect(multi)
                    && !s[i].touches_rect(fire)
    }
}

/// Number of multiplier hits in the first `n` updates of a history.
pub open spec fn hits_in(
    boards: Seq<Plinko>,
    dt: Seq<int>,
    off: Seq<int>,
    angle: Seq<int>,
    h: &Headings,
    n: nat,
) -> nat
    decreases n,
{
    if n == 0 {
        0
    } else {
        let i = n - 1;
        hits_in(boards, dt, off, angle, h, (n - 1) as nat) + boards[i].settling(
            dt[i],
            off[i],
            angle[i],
            h,
        ).len()
    }
}

/// Over a history of updates of a live board (`boards[i + 1]` is what update `i`
/// made of `boards[i]` with the draws `off[i]`, `angle[i]`), starting at multiplier 1:
/// when every puck that reaches a well in the first `n` updates reaches the multiplier
/// well, `N` hits in all (at most 63), and in update `n` one puck reaches the fire well
/// alone, that update reports exactly one event, carrying `2^N` shots, and the
/// multiplier falls back to 1.
pub proof fn multiplier_over_updates(
    boards: Seq<Plinko>,
    evs: Seq<Seq<PlinkoEvent>>,
    dt: Seq<int>,
    off: Seq<int>,
    angle: Seq<int>,
    h: &Headings,
    n: nat,
)
    requires
        boards.len() == n + 2,
        evs.len() == n + 1,
        dt.len() == n + 1,
        off.len() == n + 1,
        angle.len() == n + 1,
        boards[0].shot_count == 1,
        forall|i: int|
            0 <= i <= n ==> (#[trigger] boards[i]).wf() && boards[i].is_alive && boards[i].updated_to(
                &boards[i + 1],
                evs[i],
                dt[i],
                off[i],
                angle[i],
                h,
            ),
        forall|i: int| 0 <= i < n ==> #[trigger] boards[i].all_multiplier_hits(dt[i], off[i], angle[i], h),
        boards[n as int].single_fire_hit(dt[n as int], off[n as int], angle[n as int], h),
        hits_in(boards, dt, off, angle, h, n) <= 63,
    ensures
        evs[n as int] == seq![
            PlinkoEvent {
                id: boards[n as int].id,
                num_shots: two_to(hits_in(boards, dt, off, angle, h, n)) as u64,
            },
        ],
        boards[n + 1 as int].shot_count == 1,
{
    lemma_count_after_multiplier_runs(boards, evs, dt, off, angle, h, n);
    let b = boards[n as int];
    let s = b.settling(dt[n as int], off[n as int], angle[n as int], h);
    let multi = b.multi_rect_spec(b.well_x as int);
    let fire = b.fire_rect_spec(b.well_x as int);
    let j = choose|j: int|
        0 <= j < s.len() && (#[trigger] s[j]).touches_rect(fire) && !s[j].touches_rect(multi)
            && forall|i: int|
            0 <= i < s.len() && i != j ==> !(#[trigger] s[i]).touches_rect(multi)
                && !s[i].touches_rect(fire);
    lemma_single_fire(s, multi, fire, b.id, b.shot_count, b.well_x as int, b.well_max(), j);
}

/// After `m` updates with multiplier hits only, the multiplier is `2^N` for the `N`
/// hits of those updates.
proof fn lemma_count_after_multiplier_runs(
    boards: Seq<Plinko>,
    evs: Seq<Seq<PlinkoEvent>>,
    dt: Seq<int>,
    off: Seq<int>,
    angle: Seq<int>,
    h: &Headings,
    m: nat,
)
    requires
        m < boards.len(),
        m <= evs.len(),
        m <= dt.len(),
        m <= off.len(),
        m <= angle.len(),
        boards[0].shot_count == 1,
        forall|i: int|
            0 <= i < m ==> (#[trigger] boards[i]).wf() && boards[i].is_alive && boards[i].updated_to(
                &boards[i + 1],
                evs[i],
                dt[i],
                off[i],
                angle[i],
                h,
            ),
        forall|i: int| 0 <= i < m ==> #[trigger] boards[i].all_multiplier_hits(dt[i], off[i], angle[i], h),
        hits_in(boards, dt, off, angle, h, m) <= 63,
    ensures
        boards[m as int].shot_count == two_to(hits_in(boards, dt, off, angle, h, m)),
    decreases m,
{
    if m == 0 {
    } else {
        let i = m - 1;
        let b = boards[i];
        let s = b.settling(dt[i], off[i], angle[i], h);
        assert(b.updated_to(&boards[i + 1], evs[i], dt[i], off[i], angle[i], h));
        assert(b.all_multiplier_hits(dt[i], off[i], angle[i], h));
        lemma_count_after_multiplier_runs(boards, evs, dt, off, angle, h, (m - 1) as nat);
        let k = hits_in(boards, dt, off, angle, h, (m - 1) as nat);
        lemma_multi_run(
            s,
            b.multi_rect_spec(b.well_x as int),
            b.fire_rect_spec(b.well_x as int),
            b.id,
            b.well_x as int,
            b.well_max(),
            k,
        );
    }
}

} // verus!
