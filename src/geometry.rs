use vstd::prelude::*;
use vstd::arithmetic::div_mod::{lemma_div_pos_is_pos, lemma_multiply_divide_lt};

verus! {

/// Sub-pixel units per pixel: every position and length inside the simulation
/// is an integer count of millionths of a pixel.
pub const UNIT: i64 = 1_000_000;

/// Angles are integer tenths of a degree; a full turn is this many.
pub const FULL_TURN: i64 = 3600;

/// Half a turn, in tenths of a degree.
pub const HALF_TURN: i64 = 1800;

/// Every position stays within `[-COORD_LIMIT, COORD_LIMIT]` on each axis.
pub const COORD_LIMIT: i64 = 0x1_0000_0000_0000;

/// Largest accepted geometry constant, in pixels.
pub const MAX_PIXELS: i64 = 10_000;

/// Largest accepted half-edge cell count.
pub const MAX_HALF_EDGES: i64 = 1_000;

/// Largest magnitude of a heading table component (a unit vector in thousandths).
pub const HEADING_SCALE: i64 = 1000;

/// An axis-aligned rectangle: top-left corner, width and height.
#[derive(Clone, Copy, Debug, PartialEq, Eq, Structural)]
pub struct Rect {
    pub x: i64,
    pub y: i64,
    pub w: i64,
    pub h: i64,
}

impl Rect {
    /// The corner lies within the coordinate range and the extent is not negative.
    pub open spec fn wf(&self) -> bool {
        -COORD_LIMIT <= self.x <= COORD_LIMIT && -COORD_LIMIT <= self.y <= COORD_LIMIT
            && 0 <= self.w <= COORD_LIMIT && 0 <= self.h <= COORD_LIMIT
    }
}

/// Layout constants supplied by the presentation layer, in pixels.
#[derive(Clone, Copy, Debug, PartialEq, Eq, Structural)]
pub struct Config {
    pub cell_width: i64,
    pub half_edges: i64,
    pub border: i64,
    pub side_width: i64,
}

impl Config {
    pub open spec fn wf(&self) -> bool {
        1 <= self.cell_width <= MAX_PIXELS && 1 <= self.half_edges <= MAX_HALF_EDGES
            && 0 <= self.border <= MAX_PIXELS && 0 <= self.side_width <= MAX_PIXELS
    }

    /// Cells along one side of the grid.
    pub open spec fn edge_spec(&self) -> int {
        2 * self.half_edges
    }

    /// Pixel length of one side of the square field.
    pub open spec fn field_size_spec(&self) -> int {
        self.cell_width * self.edge_spec()
    }

    pub fn field_size(&self) -> (r: i64)
        requires
            self.wf(),
        ensures
            r == self.field_size_spec(),
            0 < r <= MAX_PIXELS * 2 * MAX_HALF_EDGES,
    {
        proof {
            assert(self.cell_width * (2 * self.half_edges) <= MAX_PIXELS * (2 * MAX_HALF_EDGES))
                by (nonlinear_arith)
                requires
                    1 <= self.cell_width <= MAX_PIXELS,
                    1 <= self.half_edges <= MAX_HALF_EDGES,
            ;
            assert(self.cell_width * (2 * self.half_edges) > 0) by (nonlinear_arith)
                requires
                    1 <= self.cell_width,
                    1 <= self.half_edges,
            ;
        }
        self.cell_width * (2 * self.half_edges)
    }

    /// Window width: the field, four borders and two side panels.
    pub fn get_width(&self) -> (r: i64)
        requires
            self.wf(),
        ensures
            r == self.field_size_spec() + 4 * self.border + 2 * self.side_width,
    {
        self.field_size() + 4 * self.border + 2 * self.side_width
    }

    /// Window height: the field and two borders.
    pub fn get_height(&self) -> (r: i64)
        requires
            self.wf(),
        ensures
            r == self.field_size_spec() + 2 * self.border,
    {
        self.field_size() + 2 * self.border
    }

    /// The field rectangle in screen coordinates (sub-pixel units): it sits right of
    /// the left border, the left side panel and the second border, below the top border.
    pub open spec fn field_rect_spec(&self) -> Rect {
        Rect {
            x: ((2 * self.border + self.side_width) * UNIT) as i64,
            y: (self.border * UNIT) as i64,
            w: (self.field_size_spec() * UNIT) as i64,
            h: (self.field_size_spec() * UNIT) as i64,
        }
    }

    pub fn field_rect(&self) -> (r: Rect)
        requires
            self.wf(),
        ensures
            r == self.field_rect_spec(),
            r.wf(),
    {
        let size = self.field_size();
        proof {
            assert(size * UNIT <= COORD_LIMIT) by (nonlinear_arith)
                requires
                    0 < size <= MAX_PIXELS * 2 * MAX_HALF_EDGES,
            ;
            assert(size * UNIT >= 0) by (nonlinear_arith)
                requires
                    0 < size,
            ;
        }
        Rect {
            x: (2 * self.border + self.side_width) * UNIT,
            y: self.border * UNIT,
            w: size * UNIT,
            h: size * UNIT,
        }
    }
}

/// Flat index of grid coordinate `(x, y)`: `x` is the row stride.
pub open spec fn logical_index_spec(x: int, y: int, half_edges: int) -> int {
    x * (2 * half_edges) + y
}

pub fn calc_logical_index(x: i64, y: i64, half_edges: i64) -> (r: usize)
    requires
        1 <= half_edges <= MAX_HALF_EDGES,
        0 <= x < 2 * half_edges,
        0 <= y < 2 * half_edges,
    ensures
        r == logical_index_spec(x as int, y as int, half_edges as int),
        r < 4 * half_edges * half_edges,
{
    let stride = 2 * half_edges;
    proof {
        assert(0 <= x * stride <= 4_000_000) by (nonlinear_arith)
            requires
                0 <= x < stride,
                stride <= 2000,
        ;
        assert(x * stride + y < 4 * half_edges * half_edges) by (nonlinear_arith)
            requires
                0 <= x < stride,
                0 <= y < stride,
                stride == 2 * half_edges,
        ;
    }
    (x * stride + y) as usize
}

/// The field-local offset lies inside the field: a cell of the grid is under it.
pub open spec fn on_grid(x: int, y: int, cfg: Config) -> bool {
    0 <= x < cfg.field_size_spec() * UNIT && 0 <= y < cfg.field_size_spec() * UNIT
}

/// Flat index of the cell under a field-local offset: each axis divided by the cell
/// width.
pub open spec fn physical_index_spec(x: int, y: int, cfg: Config) -> int {
    logical_index_spec(x / (cfg.cell_width * UNIT), y / (cfg.cell_width * UNIT), cfg.half_edges as int)
}

/// Whether a field-local offset (sub-pixel units) lies inside the field.
pub fn is_on_grid(x: i64, y: i64, cfg: &Config) -> (r: bool)
    requires
        cfg.wf(),
    ensures
        r == on_grid(x as int, y as int, *cfg),
{
    let size = cfg.field_size();
    proof {
        assert(size * UNIT <= COORD_LIMIT) by (nonlinear_arith)
            requires
                0 < size <= MAX_PIXELS * 2 * MAX_HALF_EDGES,
        ;
    }
    let limit = size * UNIT;
    0 <= x && x < limit && 0 <= y && y < limit
}

/// Flat cell index of a field-local offset (sub-pixel units) inside the field.
pub fn calc_physical_index(x: i64, y: i64, cfg: &Config) -> (r: usize)
    requires
        cfg.wf(),
        on_grid(x as int, y as int, *cfg),
    ensures
        r == physical_index_spec(x as int, y as int, *cfg),
        r < 4 * cfg.half_edges * cfg.half_edges,
{
    let cell = cfg.cell_width * UNIT;
    let edge = 2 * cfg.half_edges;
    proof {
        assert(cfg.field_size_spec() * UNIT == cell * edge) by (nonlinear_arith)
            requires
                cell == cfg.cell_width * UNIT,
                edge == 2 * cfg.half_edges,
                cfg.field_size_spec() == cfg.cell_width * (2 * cfg.half_edges),
        ;
        lemma_multiply_divide_lt(x as int, cell as int, edge as int);
        lemma_multiply_divide_lt(y as int, cell as int, edge as int);
        lemma_div_pos_is_pos(x as int, cell as int);
        lemma_div_pos_is_pos(y as int, cell as int);
    }
    calc_logical_index(x / cell, y / cell, cfg.half_edges)
}

/// An angle brought into `[0, FULL_TURN)`, for angles within one turn of that range.
pub open spec fn normalize_spec(a: int) -> int {
    if a < 0 {
        a + FULL_TURN
    } else if a >= FULL_TURN {
        a - FULL_TURN
    } else {
        a
    }
}

pub fn normalize(a: i64) -> (r: i64)
    requires
        -FULL_TURN <= a < 2 * FULL_TURN,
    ensures
        r == normalize_spec(a as int),
        0 <= r < FULL_TURN,
        r % FULL_TURN == a % FULL_TURN,
{
    if a < 0 {
        a + FULL_TURN
    } else if a >= FULL_TURN {
        a - FULL_TURN
    } else {
        a
    }
}

/// Mirror across a vertical wall: `180 - a`, brought into one turn.
pub open spec fn mirror_x(a: int) -> int {
    normalize_spec(HALF_TURN - a)
}

/// Mirror across a horizontal wall: `360 - a`, brought into one turn.
pub open spec fn mirror_y(a: int) -> int {
    normalize_spec(FULL_TURN - a)
}

/// A table of unit headings: entry `a` is the direction of angle `a` (tenths of a
/// degree), each component scaled by `HEADING_SCALE`.
pub struct Headings {
    pub steps: Vec<(i64, i64)>,
}

impl Headings {
    pub open spec fn wf(&self) -> bool {
        &&& self.steps@.len() == FULL_TURN
        &&& forall|i: int|
            0 <= i < FULL_TURN ==> -HEADING_SCALE <= #[trigger] self.steps@[i].0 <= HEADING_SCALE
                && -HEADING_SCALE <= self.steps@[i].1 <= HEADING_SCALE
    }

    /// Displacement for heading `a` at `speed` (thousandths of a pixel per tick).
    pub open spec fn displacement(&self, a: int, speed: int) -> (int, int) {
        (self.steps@[a].0 * speed, self.steps@[a].1 * speed)
    }

    /// Takes a table that has one entry per tenth of a degree, with components of
    /// magnitude at most `HEADING_SCALE`; anything else gives `None`.
    pub fn new(steps: Vec<(i64, i64)>) -> (r: Option<Headings>)
        ensures
            r is Some <==> (steps@.len() == FULL_TURN && forall|i: int|
                0 <= i < FULL_TURN ==> -HEADING_SCALE <= #[trigger] steps@[i].0 <= HEADING_SCALE
                    && -HEADING_SCALE <= steps@[i].1 <= HEADING_SCALE),
            r matches Some(h) ==> h.steps@ == steps@ && h.wf(),
    {
        if steps.len() != FULL_TURN as usize {
            return None;
        }
        let mut i: usize = 0;
        while i < steps.len()
            invariant
                steps@.len() == FULL_TURN,
                0 <= i <= steps@.len(),
                forall|j: int|
                    0 <= j < i ==> -HEADING_SCALE <= #[trigger] steps@[j].0 <= HEADING_SCALE
                        && -HEADING_SCALE <= steps@[j].1 <= HEADING_SCALE,
            decreases steps@.len() - i,
        {
            let (dx, dy) = steps[i];
            if dx < -HEADING_SCALE || dx > HEADING_SCALE || dy < -HEADING_SCALE || dy
                > HEADING_SCALE {
                return None;
            }
            i += 1;
        }
        Some(Headings { steps })
    }

    pub fn step_for(&self, a: i64, speed: i64) -> (r: (i64, i64))
        requires
            self.wf(),
            0 <= a < FULL_TURN,
            0 <= speed <= HEADING_SCALE,
        ensures
            r.0 == self.displacement(a as int, speed as int).0,
            r.1 == self.displacement(a as int, speed as int).1,
            -UNIT <= r.0 <= UNIT,
            -UNIT <= r.1 <= UNIT,
    {
        let (dx, dy) = self.steps[a as usize];
        proof {
            assert(-HEADING_SCALE <= dx <= HEADING_SCALE);
            assert(-UNIT <= dx * speed <= UNIT) by (nonlinear_arith)
                requires
                    -1000 <= dx <= 1000,
                    0 <= speed <= 1000,
            ;
            assert(-UNIT <= dy * speed <= UNIT) by (nonlinear_arith)
                requires
                    -1000 <= dy <= 1000,
                    0 <= speed <= 1000,
            ;
        }
        (dx * speed, dy * speed)
    }
}

/// Moves a coordinate by `d`, held within the coordinate range.
pub open spec fn shift_spec(p: int, d: int) -> int {
    if p + d > COORD_LIMIT {
        COORD_LIMIT as int
    } else if p + d < -COORD_LIMIT {
        -COORD_LIMIT
    } else {
        p + d
    }
}

pub fn shift(p: i64, d: i64) -> (r: i64)
    requires
        -COORD_LIMIT <= p <= COORD_LIMIT,
        -UNIT <= d <= UNIT,
    ensures
        r == shift_spec(p as int, d as int),
        -COORD_LIMIT <= r <= COORD_LIMIT,
{
    let s = p + d;
    if s > COORD_LIMIT {
        COORD_LIMIT
    } else if s < -COORD_LIMIT {
        -COORD_LIMIT
    } else {
        s
    }
}

} // verus!

verus! {

/// The reflection rule for a circle of radius `radius` against `bounds`. Inner
/// (the circle inside the box): a flip across a vertical wall when the circle
/// pokes out on the left or right, across a horizontal wall when it pokes out at
/// the top or bottom. Outer (only the centre counts): each of the four sides that
/// the centre has passed flips once.
pub open spec fn circle_bounce_spec(
    is_inner: bool,
    b: Rect,
    px: int,
    py: int,
    radius: int,
    angle: int,
) -> int {
    if is_inner {
        let a1 = if px - radius < b.x || px + radius > b.x + b.w {
            mirror_x(angle)
        } else {
            angle
        };
        if py - radius < b.y || py + radius > b.y + b.h {
            mirror_y(a1)
        } else {
            a1
        }
    } else {
        let a1 = if px < b.x {
            mirror_x(angle)
        } else {
            angle
        };
        let a2 = if px > b.x + b.w {
            mirror_x(a1)
        } else {
            a1
        };
        let a3 = if py < b.y {
            mirror_y(a2)
        } else {
            a2
        };
        if py > b.y + b.h {
            mirror_y(a3)
        } else {
            a3
        }
    }
}

pub fn flip_x(a: i64) -> (r: i64)
    requires
        0 <= a < FULL_TURN,
    ensures
        r == mirror_x(a as int),
        0 <= r < FULL_TURN,
{
    normalize(HALF_TURN - a)
}

pub fn flip_y(a: i64) -> (r: i64)
    requires
        0 <= a < FULL_TURN,
    ensures
        r == mirror_y(a as int),
        0 <= r < FULL_TURN,
{
    normalize(FULL_TURN - a)
}

/// The heading after a circle meets the walls of `boundaries` (see
/// `circle_bounce_spec`).
pub fn check_circle_boundary_collisions(
    is_inner: bool,
    boundaries: Rect,
    position: (i64, i64),
    radius: i64,
    angle: i64,
) -> (r: i64)
    requires
        boundaries.wf(),
        -COORD_LIMIT <= position.0 <= COORD_LIMIT,
        -COORD_LIMIT <= position.1 <= COORD_LIMIT,
        0 <= radius <= COORD_LIMIT,
        0 <= angle < FULL_TURN,
    ensures
        r == circle_bounce_spec(
            is_inner,
            boundaries,
            position.0 as int,
            position.1 as int,
            radius as int,
            angle as int,
        ),
        0 <= r < FULL_TURN,
{
    let (px, py) = position;
    let b = boundaries;
    let mut a = angle;
    if is_inner {
        if px - radius < b.x || px + radius > b.x + b.w {
            a = flip_x(a);
        }
        if py - radius < b.y || py + radius > b.y + b.h {
            a = flip_y(a);
        }
    } else {
        if px < b.x {
            a = flip_x(a);
        }
        if px > b.x + b.w {
            a = flip_x(a);
        }
        if py < b.y {
            a = flip_y(a);
        }
        if py > b.y + b.h {
            a = flip_y(a);
        }
    }
    a
}

} // verus!
