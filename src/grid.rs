use vstd::prelude::*;
use vstd::arithmetic::div_mod::lemma_fundamental_div_mod_converse;
use crate::geometry::{
    calc_physical_index, logical_index_spec, on_grid, physical_index_spec, Config,
};

verus! {

/// The owner that a cell starts with: players 1 to 4 hold the top-left, top-right,
/// bottom-left and bottom-right quadrants, `x` running left to right.
pub open spec fn quadrant_owner(x: int, y: int, half_edges: int) -> u8 {
    if x < half_edges && y < half_edges {
        1
    } else if x >= half_edges && y < half_edges {
        2
    } else if x < half_edges && y >= half_edges {
        3
    } else {
        4
    }
}

/// The cells and the result after a capture of cell `idx` for `id`: the cell becomes
/// `id`'s, and the result says whether it belonged to someone else.
pub open spec fn capture_spec(cells: Seq<u8>, idx: int, id: u8) -> (Seq<u8>, bool) {
    (cells.update(idx, id), cells[idx] != id)
}

pub open spec fn is_player(id: u8) -> bool {
    1 <= id <= 4
}

/// The territory: one owner tag per cell, indexed by `calc_logical_index`.
pub struct Grid {
    pub cfg: Config,
    pub cells: Vec<u8>,
}

impl Grid {
    pub open spec fn wf(&self) -> bool {
        &&& self.cfg.wf()
        &&& self.cells@.len() == 4 * self.cfg.half_edges * self.cfg.half_edges
        &&& forall|i: int| 0 <= i < self.cells@.len() ==> is_player(#[trigger] self.cells@[i])
    }

    /// Owner of cell `(x, y)`.
    pub open spec fn owner(&self, x: int, y: int) -> u8 {
        self.cells@[logical_index_spec(x, y, self.cfg.half_edges as int)]
    }

    pub fn new(cfg: &Config) -> (g: Grid)
        requires
            cfg.wf(),
        ensures
            g.wf(),
            g.cfg == *cfg,
            forall|x: int, y: int|
                0 <= x < cfg.edge_spec() && 0 <= y < cfg.edge_spec() ==> #[trigger] g.owner(x, y)
                    == quadrant_owner(x, y, cfg.half_edges as int),
    {
        let e = cfg.half_edges;
        let edge = 2 * e;
        proof {
            assert(0 < edge * edge <= 4_000_000) by (nonlinear_arith)
                requires
                    1 <= edge <= 2000,
            ;
        }
        let total = (edge * edge) as usize;
        let mut cells: Vec<u8> = Vec::new();
        let mut i: usize = 0;
        while i < total
            invariant
                cfg.wf(),
                e == cfg.half_edges,
                edge == 2 * e,
                total == edge * edge,
                total <= 4_000_000,
                i <= total,
                cells@.len() == i,
                forall|j: int|
                    0 <= j < i ==> #[trigger] cells@[j] == quadrant_owner(j / edge as int, j % edge as int, e as int),
            decreases total - i,
        {
            let x = i as i64 / edge;
            let y = i as i64 % edge;
            let tag: u8 = if x < e && y < e {
                1
            } else if x >= e && y < e {
                2
            } else if x < e && y >= e {
                3
            } else {
                4
            };
            cells.push(tag);
            i += 1;
        }
        let g = Grid { cfg: *cfg, cells };
        assert(edge * edge == 4 * e * e) by (nonlinear_arith)
            requires
                edge == 2 * e,
        ;
        assert forall|i: int| 0 <= i < g.cells@.len() implies is_player(#[trigger] g.cells@[i]) by {
            assert(cells@[i] == quadrant_owner(i / edge as int, i % edge as int, e as int));
        }
        assert forall|x: int, y: int|
            0 <= x < cfg.edge_spec() && 0 <= y < cfg.edge_spec() implies #[trigger] g.owner(x, y)
                == quadrant_owner(x, y, cfg.half_edges as int) by {
            let idx = x * edge + y;
            lemma_fundamental_div_mod_converse(idx, edge as int, x, y);
            assert(idx < edge * edge) by (nonlinear_arith)
                requires
                    0 <= x < edge,
                    0 <= y < edge,
                    idx == x * edge + y,
            ;
            assert(0 <= idx) by (nonlinear_arith)
                requires
                    0 <= x,
                    0 <= y,
                    edge > 0,
                    idx == x * edge + y,
            ;
            assert(cells@[idx] == quadrant_owner(idx / edge as int, idx % edge as int, e as int));
        }
        g
    }

    /// Captures the cell under a field-local offset (sub-pixel units) for `cannon_id`:
    /// true, and the cell changes hands, when it belonged to another player; false,
    /// and nothing changes, when it was already `cannon_id`'s.
    pub fn check_collision(&mut self, x: i64, y: i64, cannon_id: u8) -> (r: bool)
        requires
            old(self).wf(),
            is_player(cannon_id),
            on_grid(x as int, y as int, old(self).cfg),
        ensures
            final(self).wf(),
            final(self).cfg == old(self).cfg,
            0 <= physical_index_spec(x as int, y as int, old(self).cfg) < old(self).cells@.len(),
            r == (old(self).cells@[physical_index_spec(x as int, y as int, old(self).cfg)]
                != cannon_id),
            final(self).cells@ == old(self).cells@.update(
                physical_index_spec(x as int, y as int, old(self).cfg),
                cannon_id,
            ),
            (final(self).cells@, r) == capture_spec(
                old(self).cells@,
                physical_index_spec(x as int, y as int, old(self).cfg),
                cannon_id,
            ),
    {
        let index = calc_physical_index(x, y, &self.cfg);
        if self.cells[index] != cannon_id {
            self.cells.set(index, cannon_id);
            true
        } else {
            proof {
                assert(self.cells@.update(index as int, cannon_id) =~= self.cells@);
            }
            false
        }
    }
}

/// A second capture of a cell by the same player reports no change and changes
/// nothing.
pub proof fn capture_again_changes_nothing(cells: Seq<u8>, idx: int, id: u8)
    requires
        0 <= idx < cells.len(),
    ensures
        !capture_spec(capture_spec(cells, idx, id).0, idx, id).1,
        capture_spec(capture_spec(cells, idx, id).0, idx, id).0 == capture_spec(cells, idx, id).0,
{
    let once = capture_spec(cells, idx, id).0;
    assert(once.update(idx, id) =~= once);
}

/// Captures of another player's cell by two different players in turn both report a
/// change, and the cell ends with the second.
pub proof fn capture_by_two_players(cells: Seq<u8>, idx: int, first: u8, second: u8)
    requires
        0 <= idx < cells.len(),
        cells[idx] != first,
        first != second,
    ensures
        capture_spec(cells, idx, first).1,
        capture_spec(capture_spec(cells, idx, first).0, idx, second).1,
        capture_spec(capture_spec(cells, idx, first).0, idx, second).0[idx] == second,
{
}

} // verus!
