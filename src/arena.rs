use vstd::prelude::*;
use crate::bullet::Bullet;
use crate::cannon::Cannon;
use crate::geometry::{
    is_on_grid, on_grid, physical_index_spec, Config, Headings, Rect, UNIT,
};
use crate::grid::{is_player, quadrant_owner, Grid};
use crate::plinko::{Plinko, PlinkoEvent, BOUNDARY_WIDTH, MIN_WELL_WIDTH};

verus! {

/// Shots that a reload key gives.
pub const RELOAD_SHOTS: u64 = 1;

/// Players, cannons and bonus boards in an arena.
pub const PLAYERS: usize = 4;

/// A stepped bullet meets the grid: a live bullet over a cell of another player
/// captures it and expires; over its own cell it flies on.
pub open spec fn land(cells: Seq<u8>, cfg: Config, field: Rect, b: Bullet) -> (Seq<u8>, Bullet) {
    let lx = b.position.0 - field.x;
    let ly = b.position.1 - field.y;
    if b.is_alive && on_grid(lx, ly, cfg) {
        let idx = physical_index_spec(lx, ly, cfg);
        if cells[idx] != b.cannon_id {
            (cells.update(idx, b.cannon_id), Bullet { is_alive: false, ..b })
        } else {
            (cells, b)
        }
    } else {
        (cells, b)
    }
}

/// A bullet meets the cannons in order: every live cannon of another player within
/// reach of it dies, and the bullet with it, whether or not the bullet captured a
/// cell on this tick.
pub open spec fn strike(cs: Seq<Cannon>, b: Bullet) -> (Seq<Cannon>, Bullet)
    decreases cs.len(),
{
    if cs.len() == 0 {
        (cs, b)
    } else {
        let prev = strike(cs.drop_last(), b);
        let c = cs.last();
        if c.hit_by(&prev.1) {
            (prev.0.push(Cannon { is_alive: false, ..c }), Bullet { is_alive: false, ..prev.1 })
        } else {
            (prev.0.push(c), prev.1)
        }
    }
}

/// One bullet's tick: it steps, meets the grid, then the cannons.
pub open spec fn bullet_tick(
    cells: Seq<u8>,
    cs: Seq<Cannon>,
    b: Bullet,
    cfg: Config,
    field: Rect,
    h: &Headings,
) -> (Seq<u8>, Seq<Cannon>, Bullet) {
    let l = land(cells, cfg, field, b.stepped(field, h));
    let k = strike(cs, l.1);
    (l.0, k.0, k.1)
}

/// Every bullet's tick, in order, each seeing what the earlier ones left.
pub open spec fn bullets_tick(
    bs: Seq<Bullet>,
    cells: Seq<u8>,
    cs: Seq<Cannon>,
    cfg: Config,
    field: Rect,
    h: &Headings,
) -> (Seq<u8>, Seq<Cannon>, Seq<Bullet>)
    decreases bs.len(),
{
    if bs.len() == 0 {
        (cells, cs, Seq::empty())
    } else {
        let prev = bullets_tick(bs.drop_last(), cells, cs, cfg, field, h);
        let t = bullet_tick(prev.0, prev.1, bs.last(), cfg, field, h);
        (t.0, t.1, prev.2.push(t.2))
    }
}

/// The live bullets of `bs`, in order.
pub open spec fn alive_only(bs: Seq<Bullet>) -> Seq<Bullet>
    decreases bs.len(),
{
    if bs.len() == 0 {
        Seq::empty()
    } else if bs.last().is_alive {
        alive_only(bs.drop_last()).push(bs.last())
    } else {
        alive_only(bs.drop_last())
    }
}

/// Each board dies with its cannon.
pub open spec fn boards_marked(ps: Seq<Plinko>, cs: Seq<Cannon>) -> Seq<Plinko> {
    Seq::new(ps.len(), |i: int| Plinko { is_alive: ps[i].is_alive && cs[i].is_alive, ..ps[i] })
}

/// The events of `parts`, one after another.
pub open spec fn concat_all(parts: Seq<Seq<PlinkoEvent>>) -> Seq<PlinkoEvent>
    decreases parts.len(),
{
    if parts.len() == 0 {
        Seq::empty()
    } else {
        concat_all(parts.drop_last()) + parts.last()
    }
}

/// `after` is `before` with every board updated once by `dt`, in order, and `evs`
/// the events that they reported, in that order.
pub open spec fn boards_advanced(
    before: Seq<Plinko>,
    after: Seq<Plinko>,
    evs: Seq<PlinkoEvent>,
    dt: int,
    h: &Headings,
) -> bool {
    exists|parts: Seq<Seq<PlinkoEvent>>|
        {
            &&& parts.len() == before.len()
            &&& after.len() == before.len()
            &&& evs == concat_all(parts)
            &&& forall|i: int|
                0 <= i < before.len() ==> #[trigger] before[i].advanced_to(&after[i], parts[i], dt, h)
        }
}

/// The cannons after the events are applied in order: each reloads the cannon of its
/// board's player.
pub open spec fn load_all(cs: Seq<Cannon>, evs: Seq<PlinkoEvent>) -> Seq<Cannon>
    decreases evs.len(),
{
    if evs.len() == 0 {
        cs
    } else {
        let prev = load_all(cs, evs.drop_last());
        let e = evs.last();
        if is_player(e.id) {
            prev.update(e.id - 1, prev[e.id - 1].loaded(e.num_shots))
        } else {
            prev
        }
    }
}

/// Each cannon in order tries to shoot, then turns: the cannons after that, and the
/// bullets they fired.
pub open spec fn fire_all(cs: Seq<Cannon>) -> (Seq<Cannon>, Seq<Bullet>)
    decreases cs.len(),
{
    if cs.len() == 0 {
        (cs, Seq::empty())
    } else {
        let prev = fire_all(cs.drop_last());
        let f = cs.last().fired();
        (
            prev.0.push(f.0.turned()),
            match f.1 {
                Some(b) => prev.1.push(b),
                None => prev.1,
            },
        )
    }
}

/// The arena: the grid, one cannon and one bonus board per player, and the bullets in
/// flight. Cannon and board `i` belong to player `i + 1`.
pub struct App {
    pub cfg: Config,
    pub headings: Headings,
    pub grid: Grid,
    pub cannons: Vec<Cannon>,
    pub boards: Vec<Plinko>,
    pub bullets: Vec<Bullet>,
    pub field_rect: Rect,
}

impl App {
    pub open spec fn wf(&self) -> bool {
        &&& self.cfg.wf()
        &&& self.headings.wf()
        &&& self.grid.wf()
        &&& self.grid.cfg == self.cfg
        &&& self.field_rect == self.cfg.field_rect_spec()
        &&& self.field_rect.wf()
        &&& self.cannons@.len() == PLAYERS
        &&& forall|i: int|
            0 <= i < PLAYERS ==> (#[trigger] self.cannons@[i]).wf() && self.cannons@[i].id == i + 1
        &&& self.boards@.len() == PLAYERS
        &&& forall|i: int|
            0 <= i < PLAYERS ==> (#[trigger] self.boards@[i]).wf() && self.boards@[i].id == i + 1
        &&& forall|i: int|
            0 <= i < self.bullets@.len() ==> (#[trigger] self.bullets@[i]).wf() && is_player(
                self.bullets@[i].cannon_id,
            ) && self.bullets@[i].is_alive
    }

    /// `new` is what one tick by `dt` makes of `self` when the boards report `evs`:
    /// the bullets' part gives the grid, the cannons' state and the bullets that fly on;
    /// the boards of dead cannons die and every board updates, reporting `evs`; the
    /// events reload the cannons, which then shoot and turn.
    pub open spec fn ticked_to(&self, new: &App, evs: Seq<PlinkoEvent>, dt: int) -> bool {
        let r = self.bullets_resolved();
        let fired = fire_all(load_all(r.1, evs));
        &&& new.grid.cells@ == r.0
        &&& boards_advanced(boards_marked(self.boards@, r.1), new.boards@, evs, dt, &self.headings)
        &&& new.cannons@ == fired.0
        &&& new.bullets@ == alive_only(r.2) + fired.1
    }

    /// Grid, cannons and every bullet's outcome after the bullets' part of a tick.
    pub open spec fn bullets_resolved(&self) -> (Seq<u8>, Seq<Cannon>, Seq<Bullet>) {
        bullets_tick(
            self.bullets@,
            self.grid.cells@,
            self.cannons@,
            self.cfg,
            self.field_rect,
            &self.headings,
        )
    }
}

} // verus!

verus! {

/// A stepped bullet meets the grid (see `land`).
fn land_on(grid: &mut Grid, field: Rect, b: &mut Bullet)
    requires
        old(grid).wf(),
        field.wf(),
        old(b).wf(),
        is_player(old(b).cannon_id),
    ensures
        final(grid).wf(),
        final(grid).cfg == old(grid).cfg,
        final(b).wf(),
        (final(grid).cells@, *final(b)) == land(old(grid).cells@, old(grid).cfg, field, *old(b)),
        *final(b) == (Bullet { is_alive: final(b).is_alive, ..*old(b) }),
{
    let lx = b.position.0 - field.x;
    let ly = b.position.1 - field.y;
    if b.is_alive {
        if is_on_grid(lx, ly, &grid.cfg) {
            let ghost cells0 = grid.cells@;
            let ghost idx = physical_index_spec(lx as int, ly as int, grid.cfg);
            if grid.check_collision(lx, ly, b.cannon_id) {
                b.is_alive = false;
            } else {
                proof {
                    assert(grid.cells@ =~= cells0);
                }
            }
        }
    }
}

/// A bullet meets the cannons in order (see `strike`).
fn strike_cannons(cannons: &mut Vec<Cannon>, b: &mut Bullet)
    requires
        old(b).wf(),
        forall|i: int| 0 <= i < old(cannons)@.len() ==> (#[trigger] old(cannons)@[i]).wf(),
    ensures
        final(b).wf(),
        (final(cannons)@, *final(b)) == strike(old(cannons)@, *old(b)),
        *final(b) == (Bullet { is_alive: final(b).is_alive, ..*old(b) }),
        final(cannons)@.len() == old(cannons)@.len(),
        forall|i: int|
            0 <= i < old(cannons)@.len() ==> #[trigger] final(cannons)@[i] == (Cannon {
                is_alive: final(cannons)@[i].is_alive,
                ..old(cannons)@[i]
            }),
{
    let ghost cs0 = cannons@;
    let ghost b0 = *b;
    let mut j: usize = 0;
    while j < cannons.len()
        invariant
            cannons@.len() == cs0.len(),
            j <= cs0.len(),
            b.wf(),
            *b == (Bullet { is_alive: b.is_alive, ..b0 }),
            (cannons@.take(j as int), *b) == strike(cs0.take(j as int), b0),
            forall|k: int| j <= k < cs0.len() ==> #[trigger] cannons@[k] == cs0[k],
            forall|k: int| 0 <= k < cs0.len() ==> (#[trigger] cs0[k]).wf(),
            forall|k: int|
                0 <= k < cs0.len() ==> #[trigger] cannons@[k] == (Cannon {
                    is_alive: cannons@[k].is_alive,
                    ..cs0[k]
                }),
        decreases cs0.len() - j,
    {
        let ghost before = cannons@;
        let mut c = cannons[j];
        c.check_collision(b);
        cannons.set(j, c);
        proof {
            assert(cs0.take(j as int + 1).drop_last() =~= cs0.take(j as int));
            assert(cs0.take(j as int + 1).last() == cs0[j as int]);
            assert(cannons@.take(j as int + 1) =~= before.take(j as int).push(c));
        }
        j += 1;
    }
    proof {
        assert(cs0.take(cs0.len() as int) =~= cs0);
        assert(cannons@.take(cs0.len() as int) =~= cannons@);
    }
}

impl App {
    /// The bullets' part of a tick: every bullet steps, meets the grid and the cannons
    /// (see `bullets_tick`), and the expired ones are removed.
    fn step_bullets(&mut self)
        requires
            old(self).wf(),
        ensures
            final(self).wf(),
            final(self).cfg == old(self).cfg,
            final(self).headings == old(self).headings,
            final(self).field_rect == old(self).field_rect,
            final(self).boards@ == old(self).boards@,
            final(self).grid.cells@ == old(self).bullets_resolved().0,
            final(self).cannons@ == old(self).bullets_resolved().1,
            final(self).bullets@ == alive_only(old(self).bullets_resolved().2),
    {
        let ghost bs0 = self.bullets@;
        let ghost cells0 = self.grid.cells@;
        let ghost cs0 = self.cannons@;
        let ghost start = *self;
        let mut done: Vec<Bullet> = Vec::new();
        let mut i: usize = 0;
        while i < self.bullets.len()
            invariant
                start.wf(),
                self.cfg == start.cfg,
                self.headings == start.headings,
                self.field_rect == start.field_rect,
                self.boards@ == start.boards@,
                self.bullets@ == bs0,
                bs0 == start.bullets@,
                cells0 == start.grid.cells@,
                cs0 == start.cannons@,
                i <= bs0.len(),
                self.grid.wf(),
                self.grid.cfg == self.cfg,
                self.cannons@.len() == PLAYERS,
                forall|k: int|
                    0 <= k < PLAYERS ==> (#[trigger] self.cannons@[k]).wf() && self.cannons@[k].id
                        == k + 1,
                forall|k: int|
                    0 <= k < done@.len() ==> (#[trigger] done@[k]).wf() && is_player(
                        done@[k].cannon_id,
                    ),
                (self.grid.cells@, self.cannons@, done@) == bullets_tick(
                    bs0.take(i as int),
                    cells0,
                    cs0,
                    self.cfg,
                    self.field_rect,
                    &self.headings,
                ),
            decreases bs0.len() - i,
        {
            let mut b = self.bullets[i];
            b.step(self.field_rect, &self.headings);
            land_on(&mut self.grid, self.field_rect, &mut b);
            strike_cannons(&mut self.cannons, &mut b);
            done.push(b);
            proof {
                assert(bs0.take(i as int + 1).drop_last() =~= bs0.take(i as int));
                assert(bs0.take(i as int + 1).last() == bs0[i as int]);
            }
            i += 1;
        }
        proof {
            assert(bs0.take(bs0.len() as int) =~= bs0);
        }
        let ghost all = done@;
        let mut live: Vec<Bullet> = Vec::new();
        let mut k: usize = 0;
        while k < done.len()
            invariant
                done@ == all,
                k <= all.len(),
                live@ == alive_only(all.take(k as int)),
                forall|j: int|
                    0 <= j < all.len() ==> (#[trigger] all[j]).wf() && is_player(all[j].cannon_id),
                forall|j: int|
                    0 <= j < live@.len() ==> (#[trigger] live@[j]).wf() && is_player(
                        live@[j].cannon_id,
                    ) && live@[j].is_alive,
            decreases all.len() - k,
        {
            let b = done[k];
            proof {
                assert(all.take(k as int + 1).drop_last() =~= all.take(k as int));
                assert(all.take(k as int + 1).last() == all[k as int]);
            }
            if b.is_alive {
                live.push(b);
            }
            k += 1;
        }
        proof {
            assert(all.take(all.len() as int) =~= all);
        }
        self.bullets = live;
    }
}

} // verus!

verus! {

impl App {
    /// Kills the board of every dead cannon.
    fn mark_boards(&mut self)
        requires
            old(self).wf(),
        ensures
            final(self).wf(),
            final(self).cfg == old(self).cfg,
            final(self).headings == old(self).headings,
            final(self).field_rect == old(self).field_rect,
            final(self).grid == old(self).grid,
            final(self).cannons@ == old(self).cannons@,
            final(self).bullets@ == old(self).bullets@,
            final(self).boards@ == boards_marked(old(self).boards@, old(self).cannons@),
    {
        let ghost start = *self;
        let mut rest: Vec<Plinko> = Vec::new();
        std::mem::swap(&mut rest, &mut self.boards);
        let ghost ps0 = rest@;
        let mut i: usize = 0;
        while rest.len() > 0
            invariant
                start.wf(),
                ps0 == start.boards@,
                self.cfg == start.cfg,
                self.headings == start.headings,
                self.field_rect == start.field_rect,
                self.grid == start.grid,
                self.cannons@ == start.cannons@,
                self.bullets@ == start.bullets@,
                i <= PLAYERS,
                rest@ == ps0.subrange(i as int, PLAYERS as int),
                self.boards@.len() == i,
                forall|j: int|
                    0 <= j < i ==> #[trigger] self.boards@[j] == boards_marked(ps0, start.cannons@)[j],
            decreases rest@.len(),
        {
            let mut p = rest.remove(0);
            if !self.cannons[i].is_alive {
                p.is_alive = false;
            }
            self.boards.push(p);
            i += 1;
        }
        proof {
            assert(self.boards@ =~= boards_marked(ps0, start.cannons@));
        }
    }

    /// Updates every board by `delta_time`, in order, and returns their events in
    /// that order.
    fn update_boards(&mut self, delta_time: i64) -> (events: Vec<PlinkoEvent>)
        requires
            old(self).wf(),
            0 <= delta_time,
        ensures
            final(self).wf(),
            final(self).cfg == old(self).cfg,
            final(self).headings == old(self).headings,
            final(self).field_rect == old(self).field_rect,
            final(self).grid == old(self).grid,
            final(self).cannons@ == old(self).cannons@,
            final(self).bullets@ == old(self).bullets@,
            boards_advanced(
                old(self).boards@,
                final(self).boards@,
                events@,
                delta_time as int,
                &old(self).headings,
            ),
            forall|i: int| 0 <= i < events@.len() ==> is_player(#[trigger] events@[i].id),
    {
        let ghost start = *self;
        let mut rest: Vec<Plinko> = Vec::new();
        std::mem::swap(&mut rest, &mut self.boards);
        let ghost ps0 = rest@;
        let ghost mut parts: Seq<Seq<PlinkoEvent>> = Seq::empty();
        let mut events: Vec<PlinkoEvent> = Vec::new();
        let mut i: usize = 0;
        while rest.len() > 0
            invariant
                start.wf(),
                ps0 == start.boards@,
                self.cfg == start.cfg,
                self.headings == start.headings,
                self.field_rect == start.field_rect,
                self.grid == start.grid,
                self.cannons@ == start.cannons@,
                self.bullets@ == start.bullets@,
                0 <= delta_time,
                i <= PLAYERS,
                rest@ == ps0.subrange(i as int, PLAYERS as int),
                self.boards@.len() == i,
                parts.len() == i,
                events@ == concat_all(parts),
                forall|j: int| 0 <= j < events@.len() ==> is_player(#[trigger] events@[j].id),
                forall|j: int|
                    0 <= j < i ==> (#[trigger] self.boards@[j]).wf() && self.boards@[j].id == j + 1,
                forall|j: int|
                    0 <= j < i ==> #[trigger] ps0[j].advanced_to(
                        &self.boards@[j],
                        parts[j],
                        delta_time as int,
                        &start.headings,
                    ),
            decreases rest@.len(),
        {
            let mut p = rest.remove(0);
            assert(p == ps0[i as int]);
            let mut evs = p.update(delta_time, &self.headings);
            proof {
                let ghost e = evs@;
                assert forall|j: int| 0 <= j < e.len() implies is_player(#[trigger] e[j].id) by {
                    lemma_events_carry_id(&ps0[i as int], &p, e, delta_time as int, &start.headings);
                }
                let np = parts.push(e);
                assert(np.drop_last() =~= parts);
                parts = np;
            }
            events.append(&mut evs);
            self.boards.push(p);
            i += 1;
        }
        proof {
            assert(self.boards@.len() == PLAYERS);
        }
        events
    }
}

/// Every event that one board update reports carries the board's id.
proof fn lemma_events_carry_id(
    before: &Plinko,
    after: &Plinko,
    events: Seq<PlinkoEvent>,
    dt: int,
    h: &Headings,
)
    requires
        before.advanced_to(after, events, dt, h),
    ensures
        forall|j: int| 0 <= j < events.len() ==> (#[trigger] events[j]).id == before.id,
{
    let (off, angle) = choose|off: int, angle: int|
        0 <= off < before.spawn_span() && crate::plinko::SPAWN_ANGLE_MIN <= angle
            < crate::plinko::SPAWN_ANGLE_MAX && #[trigger] before.updated_to(
            after,
            events,
            dt,
            off,
            angle,
            h,
        );
    if before.is_alive {
        let moved = before.moved_pucks(dt, off, angle, h);
        let multi = before.multi_rect_spec(before.well_x as int);
        let fire = before.fire_rect_spec(before.well_x as int);
        crate::plinko::lemma_settle_ids(
            moved,
            multi,
            fire,
            before.id,
            before.shot_count,
            before.well_x as int,
            before.well_max(),
        );
    }
}

} // verus!

verus! {

impl App {
    /// Applies scoring events in order: each reloads its player's cannon with the
    /// event's shots.
    pub fn apply_events(&mut self, events: &Vec<PlinkoEvent>)
        requires
            old(self).wf(),
        ensures
            final(self).wf(),
            final(self).cfg == old(self).cfg,
            final(self).headings == old(self).headings,
            final(self).field_rect == old(self).field_rect,
            final(self).grid == old(self).grid,
            final(self).boards@ == old(self).boards@,
            final(self).bullets@ == old(self).bullets@,
            final(self).cannons@ == load_all(old(self).cannons@, events@),
    {
        let ghost start = *self;
        let mut i: usize = 0;
        while i < events.len()
            invariant
                start.wf(),
                self.cfg == start.cfg,
                self.headings == start.headings,
                self.field_rect == start.field_rect,
                self.grid == start.grid,
                self.boards@ == start.boards@,
                self.bullets@ == start.bullets@,
                i <= events@.len(),
                self.cannons@.len() == PLAYERS,
                forall|k: int|
                    0 <= k < PLAYERS ==> (#[trigger] self.cannons@[k]).wf() && self.cannons@[k].id
                        == k + 1,
                self.cannons@ == load_all(start.cannons@, events@.take(i as int)),
            decreases events@.len() - i,
        {
            let e = events[i];
            proof {
                assert(events@.take(i as int + 1).drop_last() =~= events@.take(i as int));
                assert(events@.take(i as int + 1).last() == e);
            }
            if 1 <= e.id && e.id <= 4 {
                let idx = (e.id - 1) as usize;
                let mut c = self.cannons[idx];
                c.load(e.num_shots);
                self.cannons.set(idx, c);
            }
            i += 1;
        }
        proof {
            assert(events@.take(events@.len() as int) =~= events@);
        }
    }

    /// Each cannon in order tries to shoot, then turns; the bullets fired join the
    /// bullets in flight.
    fn fire_and_turn(&mut self)
        requires
            old(self).wf(),
        ensures
            final(self).wf(),
            final(self).cfg == old(self).cfg,
            final(self).headings == old(self).headings,
            final(self).field_rect == old(self).field_rect,
            final(self).grid == old(self).grid,
            final(self).boards@ == old(self).boards@,
            final(self).cannons@ == fire_all(old(self).cannons@).0,
            final(self).bullets@ == old(self).bullets@ + fire_all(old(self).cannons@).1,
    {
        let ghost start = *self;
        let ghost cs0 = self.cannons@;
        let mut fired: Vec<Bullet> = Vec::new();
        let mut i: usize = 0;
        while i < self.cannons.len()
            invariant
                start.wf(),
                cs0 == start.cannons@,
                self.cfg == start.cfg,
                self.headings == start.headings,
                self.field_rect == start.field_rect,
                self.grid == start.grid,
                self.boards@ == start.boards@,
                self.bullets@ == start.bullets@,
                i <= PLAYERS,
                self.cannons@.len() == PLAYERS,
                forall|k: int|
                    0 <= k < PLAYERS ==> (#[trigger] self.cannons@[k]).wf() && self.cannons@[k].id
                        == k + 1,
                forall|k: int| i <= k < PLAYERS ==> #[trigger] self.cannons@[k] == cs0[k],
                (self.cannons@.take(i as int), fired@) == fire_all(cs0.take(i as int)),
                forall|k: int|
                    0 <= k < fired@.len() ==> (#[trigger] fired@[k]).wf() && is_player(
                        fired@[k].cannon_id,
                    ) && fired@[k].is_alive,
            decreases PLAYERS - i,
        {
            let ghost before = self.cannons@;
            let mut c = self.cannons[i];
            let shot = c.shoot();
            match shot {
                Some(b) => {
                    fired.push(b);
                },
                None => {},
            }
            c.turn();
            self.cannons.set(i, c);
            proof {
                assert(cs0.take(i as int + 1).drop_last() =~= cs0.take(i as int));
                assert(cs0.take(i as int + 1).last() == cs0[i as int]);
                assert(self.cannons@.take(i as int + 1) =~= before.take(i as int).push(c));
            }
            i += 1;
        }
        proof {
            assert(cs0.take(PLAYERS as int) =~= cs0);
            assert(self.cannons@.take(PLAYERS as int) =~= self.cannons@);
        }
        self.bullets.append(&mut fired);
    }

    /// One tick of the arena, `delta_time` microseconds long. In order: the bullets
    /// step and meet the grid and the cannons, and the expired ones go; the board of
    /// each dead cannon dies; every board updates, its events held back; the events
    /// reload the cannons; every cannon tries to shoot, then turns.
    pub fn update(&mut self, delta_time: i64)
        requires
            old(self).wf(),
            0 <= delta_time,
        ensures
            final(self).wf(),
            final(self).cfg == old(self).cfg,
            final(self).headings == old(self).headings,
            final(self).field_rect == old(self).field_rect,
            final(self).grid.cells@ == old(self).bullets_resolved().0,
            exists|evs: Seq<PlinkoEvent>| #[trigger]
                old(self).ticked_to(&*final(self), evs, delta_time as int),
    {
        self.step_bullets();
        let ghost mid = *self;
        self.mark_boards();
        let events = self.update_boards(delta_time);
        self.apply_events(&events);
        self.fire_and_turn();
        proof {
            assert(old(self).ticked_to(&*self, events@, delta_time as int));
        }
    }

    /// A reload key: key `n` for player `n` (1 to 4) loads that player's cannon with
    /// `RELOAD_SHOTS`; any other key does nothing.
    pub fn handle_button(&mut self, key: u32)
        requires
            old(self).wf(),
        ensures
            final(self).wf(),
            final(self).cfg == old(self).cfg,
            final(self).headings == old(self).headings,
            final(self).field_rect == old(self).field_rect,
            final(self).grid == old(self).grid,
            final(self).boards@ == old(self).boards@,
            final(self).bullets@ == old(self).bullets@,
            final(self).cannons@ == if 1 <= key <= 4 {
                old(self).cannons@.update(
                    key - 1,
                    old(self).cannons@[key - 1].loaded(RELOAD_SHOTS),
                )
            } else {
                old(self).cannons@
            },
    {
        if 1 <= key && key <= 4 {
            let idx = (key - 1) as usize;
            let mut c = self.cannons[idx];
            c.load(RELOAD_SHOTS);
            self.cannons.set(idx, c);
        }
    }

    /// Window width for the arena's layout, in pixels.
    pub fn get_width(&self) -> (r: i64)
        requires
            self.wf(),
        ensures
            r == self.cfg.field_size_spec() + 4 * self.cfg.border + 2 * self.cfg.side_width,
    {
        self.cfg.get_width()
    }

    /// Window height for the arena's layout, in pixels.
    pub fn get_height(&self) -> (r: i64)
        requires
            self.wf(),
        ensures
            r == self.cfg.field_size_spec() + 2 * self.cfg.border,
    {
        self.cfg.get_height()
    }
}

} // verus!

verus! {

/// Top-left corner of player `i + 1`'s board, in sub-pixel units: players 1 and 3 in
/// the left side panel, 2 and 4 in the right one, 1 and 2 in the upper half.
pub open spec fn board_origin(cfg: Config, i: int) -> (int, int) {
    (
        if i % 2 == 0 {
            cfg.border * UNIT
        } else {
            (3 * cfg.border + cfg.side_width + cfg.field_size_spec()) * UNIT
        },
        if i < 2 {
            cfg.border * UNIT
        } else {
            (cfg.border + cfg.half_edges * cfg.cell_width) * UNIT
        },
    )
}

impl App {
    /// A fresh arena: the grid split in quadrants, an unloaded cannon in each corner
    /// (player 1 top-left, 2 top-right, 3 bottom-left, 4 bottom-right) and each
    /// player's board in a side panel, no bullets.
    pub fn new(cfg: &Config, headings: Headings) -> (app: App)
        requires
            cfg.wf(),
            headings.wf(),
            2 * (BOUNDARY_WIDTH + MIN_WELL_WIDTH) <= cfg.side_width * UNIT,
            2 * BOUNDARY_WIDTH <= cfg.half_edges * cfg.cell_width * UNIT,
        ensures
            app.wf(),
            app.cfg == *cfg,
            app.headings == headings,
            app.bullets@.len() == 0,
            forall|x: int, y: int|
                0 <= x < cfg.edge_spec() && 0 <= y < cfg.edge_spec() ==> #[trigger] app.grid.owner(x, y)
                    == quadrant_owner(x, y, cfg.half_edges as int),
            forall|i: int|
                0 <= i < PLAYERS ==> (#[trigger] app.cannons@[i]).built_for_corner(
                    (i + 1) as u8,
                    i % 2 == 0,
                    i < 2,
                    *cfg,
                ),
            forall|i: int|
                0 <= i < PLAYERS ==> (#[trigger] app.boards@[i]).fresh(
                    (i + 1) as u8,
                    (board_origin(*cfg, i).0 as i64, board_origin(*cfg, i).1 as i64),
                    *cfg,
                ),
    {
        let grid = Grid::new(cfg);
        let field_rect = cfg.field_rect();
        let size = cfg.field_size();
        proof {
            assert(1 <= cfg.half_edges * cfg.cell_width <= 10_000_000) by (nonlinear_arith)
                requires
                    1 <= cfg.half_edges <= 1000,
                    1 <= cfg.cell_width <= 10_000,
            ;
        }
        let half = cfg.half_edges * cfg.cell_width;
        let left = cfg.border * UNIT;
        let right = (3 * cfg.border + cfg.side_width + size) * UNIT;
        let top = cfg.border * UNIT;
        let bottom = (cfg.border + half) * UNIT;
        let mut cannons: Vec<Cannon> = Vec::new();
        cannons.push(Cannon::new(1, true, true, cfg));
        cannons.push(Cannon::new(2, false, true, cfg));
        cannons.push(Cannon::new(3, true, false, cfg));
        cannons.push(Cannon::new(4, false, false, cfg));
        let mut boards: Vec<Plinko> = Vec::new();
        boards.push(Plinko::new(1, (left, top), cfg));
        boards.push(Plinko::new(2, (right, top), cfg));
        boards.push(Plinko::new(3, (left, bottom), cfg));
        boards.push(Plinko::new(4, (right, bottom), cfg));
        App { cfg: *cfg, headings, grid, cannons, boards, bullets: Vec::new(), field_rect }
    }
}

} // verus!
