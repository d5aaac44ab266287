use vstd::prelude::*;

use crate::SCALE;

verus! {

/// Most columns a map can have: one per bit of a row.
pub const MAX_WIDTH: u32 = 64;

/// Why a map or a pose was rejected.
#[derive(Debug, Clone, Copy, PartialEq, Eq, Structural)]
pub enum StateError {
    /// The map has no rows, its width is not between 1 and `MAX_WIDTH`, or a
    /// row has a wall beyond that width.
    InvalidMap,
    /// A pose coordinate is outside the range that fixed-point arithmetic holds.
    InvalidPose,
}

/// An immutable grid of wall cells, `width` columns wide; row `y` holds
/// column `x` at bit `x`.
#[derive(Debug)]
pub struct WorldMap {
    rows: Vec<u64>,
    width: u32,
}

/// What a map is: its rows and its width.
pub struct Grid {
    pub rows: Seq<u64>,
    pub width: int,
}

/// Whether bit `x` of `row` is set.
pub open spec fn bit_set(row: u64, x: int) -> bool {
    (row >> (x as u64)) & 1u64 == 1u64
}

/// Whether a map width is allowed.
pub open spec fn width_ok(width: int) -> bool {
    1 <= width <= MAX_WIDTH
}

/// Whether `row` has no wall at or beyond column `width`.
pub open spec fn row_fits(row: u64, width: u32) -> bool {
    width >= 64 || row >> (width as u64) == 0u64
}

/// Whether `rows` and `width` make a map.
pub open spec fn map_ok(rows: Seq<u64>, width: u32) -> bool {
    rows.len() > 0 && width_ok(width as int) && forall|i: int| 0 <= i < rows.len() ==> row_fits(#[trigger] rows[i], width)
}

/// Floor of a fixed-point coordinate, in cells.
pub open spec fn cell_of(v: int) -> int {
    v / (SCALE as int)
}

/// Whether cell `(x, y)` of the grid is a wall: every cell outside the grid
/// is one.
pub open spec fn cell_wall(g: Grid, x: int, y: int) -> bool {
    x < 0 || y < 0 || x >= g.width || y >= g.rows.len() || bit_set(g.rows[y], x)
}

/// Whether the cell holding the fixed-point point `(x, y)` is a wall.
pub open spec fn point_wall(g: Grid, x: int, y: int) -> bool {
    cell_wall(g, cell_of(x), cell_of(y))
}

impl WorldMap {
    pub closed spec fn grid(&self) -> Grid {
        Grid { rows: self.rows@, width: self.width as int }
    }

    pub open spec fn height_spec(&self) -> int {
        self.grid().rows.len() as int
    }

    pub open spec fn width_spec(&self) -> int {
        self.grid().width
    }

    pub open spec fn wf(&self) -> bool {
        0 < self.grid().rows.len() <= usize::MAX && width_ok(self.width_spec())
    }

    /// Whether cell `(x, y)` is a wall: every cell outside the grid is one.
    pub open spec fn wall_cell_spec(&self, x: int, y: int) -> bool {
        cell_wall(self.grid(), x, y)
    }

    /// Whether the cell holding the fixed-point point `(x, y)` is a wall.
    pub open spec fn wall_at_spec(&self, x: int, y: int) -> bool {
        point_wall(self.grid(), x, y)
    }

    /// Builds a map `width` columns wide from its rows. No rows, a width
    /// outside `1..=MAX_WIDTH`, or a row with a wall at or beyond `width` make
    /// an invalid map.
    pub fn new(rows: Vec<u64>, width: u32) -> (r: Result<WorldMap, StateError>)
        ensures
            r is Ok <==> map_ok(rows@, width),
            r is Err ==> r == Err::<WorldMap, StateError>(StateError::InvalidMap),
            r matches Ok(m) ==> m.wf() && m.grid() == (Grid { rows: rows@, width: width as int }),
    {
        if rows.len() == 0 || width == 0 || width > MAX_WIDTH {
            return Err(StateError::InvalidMap);
        }
        let mut i: usize = 0;
        while i < rows.len()
            invariant
                i <= rows@.len(),
                width_ok(width as int),
                forall|j: int| 0 <= j < i ==> row_fits(#[trigger] rows@[j], width),
            decreases rows@.len() - i,
        {
            if width < 64 && rows[i] >> (width as u64) != 0u64 {
                return Err(StateError::InvalidMap);
            }
            i = i + 1;
        }
        Ok(WorldMap { rows, width })
    }

    /// A copy of the map.
    pub fn clone_map(&self) -> (r: WorldMap)
        ensures
            r.grid() == self.grid(),
    {
        let rows = self.rows.clone();
        assert(rows@ =~= self.rows@);
        WorldMap { rows, width: self.width }
    }

    /// Number of rows.
    pub fn height(&self) -> (r: usize)
        ensures
            r as int == self.height_spec(),
    {
        self.rows.len()
    }

    /// Number of columns.
    pub fn width(&self) -> (r: u32)
        ensures
            r as int == self.width_spec(),
    {
        self.width
    }

    /// The rows, top to bottom.
    pub fn rows(&self) -> (r: Vec<u64>)
        ensures
            r@ == self.grid().rows,
    {
        let r = self.rows.clone();
        assert(r@ =~= self.rows@);
        r
    }

    /// Whether cell `(x, y)` is a wall.
    pub fn wall_cell(&self, x: i64, y: i64) -> (r: bool)
        requires
            self.wf(),
        ensures
            r == self.wall_cell_spec(x as int, y as int),
    {
        if x < 0 || y < 0 || x >= self.width as i64 || y as u64 >= self.rows.len() as u64 {
            true
        } else {
            let row = self.rows[y as usize];
            (row >> (x as u64)) & 1u64 == 1u64
        }
    }

    /// Whether the cell holding the fixed-point point `(x, y)` is a wall.
    pub fn wall_at(&self, x: i64, y: i64) -> (r: bool)
        requires
            self.wf(),
        ensures
            r == self.wall_at_spec(x as int, y as int),
    {
        self.wall_cell(floor_cell(x), floor_cell(y))
    }

    /// Every point outside the grid is a wall.
    pub proof fn lemma_outside_is_wall(&self, x: int, y: int)
        requires
            x < 0 || x >= self.width_spec() * SCALE || y < 0 || y >= self.height_spec() * SCALE,
        ensures
            self.wall_at_spec(x, y),
    {
        let s = SCALE as int;
        if x < 0 {
            assert(x / s < 0) by (nonlinear_arith) requires x < 0, s > 0;
        } else if x >= self.width_spec() * SCALE {
            let w = self.width_spec();
            assert(x / s >= w) by (nonlinear_arith)
                requires x >= w * s, s > 0;
        } else if y < 0 {
            assert(y / s < 0) by (nonlinear_arith) requires y < 0, s > 0;
        } else {
            let h = self.height_spec();
            assert(y / s >= h) by (nonlinear_arith)
                requires y >= h * s, s > 0;
        }
    }
}

/// Floor of a fixed-point coordinate, in cells.
pub fn floor_cell(v: i64) -> (r: i64)
    ensures
        r as int == cell_of(v as int),
{
    if v >= 0 {
        v / SCALE
    } else {
        let w: i64 = -(v + 1);
        let q: i64 = w / SCALE;
        proof {
            let s = SCALE as int;
            assert((v as int) / s == -(q as int) - 1) by (nonlinear_arith)
                requires s > 0, w >= 0, v == -w - 1, q as int == w as int / s;
        }
        -q - 1
    }
}

} // verus!
