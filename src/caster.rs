//! Grid-line traversal of one ray, and the distance it travels.
use vstd::prelude::*;

use crate::map::{cell_of, floor_cell, point_wall, Grid, WorldMap};
use crate::{MAX_STEPS, POS_LIMIT, SCALE};

verus! {

/// One column's ray: its direction as a fixed-point vector `(cos a, -sin a)`
/// and the cosine of its angle off the heading, both in units of `SCALE`.
#[derive(Debug, Clone, Copy, PartialEq, Eq, Structural)]
pub struct Ray {
    pub dir_x: i64,
    pub dir_y: i64,
    pub cos_offset: i64,
}

pub open spec fn abs(a: int) -> int {
    if a < 0 { -a } else { a }
}

/// A position in range for the traversal.
pub open spec fn pos_ok(p: int) -> bool {
    -POS_LIMIT <= p <= POS_LIMIT
}

/// A fixed-point component of magnitude at most one.
pub open spec fn unit_ok(v: int) -> bool {
    -SCALE <= v <= SCALE
}

impl Ray {
    pub open spec fn wf(&self) -> bool {
        unit_ok(self.dir_x as int) && unit_ok(self.dir_y as int) && unit_ok(self.cos_offset as int)
    }

    /// Whether the fields are in range.
    pub fn is_valid(&self) -> (r: bool)
        ensures
            r == self.wf(),
    {
        -SCALE <= self.dir_x && self.dir_x <= SCALE && -SCALE <= self.dir_y && self.dir_y <= SCALE
            && -SCALE <= self.cos_offset && self.cos_offset <= SCALE
    }
}

/// Quotient rounded toward zero.
pub open spec fn quot(a: int, b: int) -> int {
    if (a >= 0) == (b > 0) || a == 0 {
        abs(a) / abs(b)
    } else {
        -(abs(a) / abs(b))
    }
}

/// Offset from `p` to the first grid line in the direction of `d`'s sign:
/// the line at or after `p` when `d > 0`, the one at or before it otherwise.
pub open spec fn start_along(p: int, d: int) -> int {
    if d > 0 {
        -cell_of(-p) * SCALE - p
    } else {
        cell_of(p) * SCALE - p
    }
}

/// One grid cell forward or back, along the stepping axis.
pub open spec fn step_along(d: int) -> int {
    if d > 0 { SCALE as int } else { -SCALE }
}

/// Offset along the stepping axis after `k` crossings.
pub open spec fn off_along(p: int, d: int, k: int) -> int {
    start_along(p, d) + k * step_along(d)
}

/// Offset across the stepping axis after `k` crossings: the slope `e / d`
/// applied to the first offset and to each step, each rounded toward zero.
pub open spec fn off_across(p: int, d: int, e: int, k: int) -> int {
    quot(start_along(p, d) * e, d) + k * quot(step_along(d) * e, d)
}

/// Whether the cell beyond the `k`-th grid line crossed is a wall. The ray
/// starts at `(p, q)` and steps along the x axis when `along_x`, else along y;
/// when it moves toward smaller coordinates the cell before the line is the one
/// that counts.
pub open spec fn probe_hit(g: Grid, p: int, q: int, d: int, e: int, along_x: bool, k: int) -> bool {
    let pa = p + off_along(p, d, k) - (if d > 0 { 0 } else { SCALE as int });
    let pb = q + off_across(p, d, e, k);
    if along_x {
        point_wall(g, pa, pb)
    } else {
        point_wall(g, pb, pa)
    }
}

/// The first crossing from `k` on whose cell is a wall, or `MAX_STEPS` if none
/// is found before the cap.
pub open spec fn stop_from(g: Grid, p: int, q: int, d: int, e: int, along_x: bool, k: nat) -> nat
    decreases MAX_STEPS - k,
{
    if k >= MAX_STEPS {
        MAX_STEPS as nat
    } else if probe_hit(g, p, q, d, e, along_x, k as int) {
        k
    } else {
        stop_from(g, p, q, d, e, along_x, k + 1)
    }
}

/// Offset `(along, across)` at which the traversal stops.
pub open spec fn traversal(g: Grid, p: int, q: int, d: int, e: int, along_x: bool) -> (int, int) {
    let k = stop_from(g, p, q, d, e, along_x, 0) as int;
    (off_along(p, d, k), off_across(p, d, e, k))
}

/// Quotient of `a` by `b`, rounded toward zero.
fn quot_exec(a: i64, b: i64) -> (r: i64)
    requires
        b != 0,
        abs(a as int) <= 0x1_0000_0000_0000,
    ensures
        r as int == quot(a as int, b as int),
        abs(r as int) <= abs(a as int),
{
    let ua: u64 = if a < 0 { (-a) as u64 } else { a as u64 };
    let ub: u64 = if b < 0 { if b == i64::MIN { 0x8000_0000_0000_0000u64 } else { (-b) as u64 } } else { b as u64 };
    let q: u64 = ua / ub;
    proof {
        assert(q as int <= ua as int) by (nonlinear_arith) requires ub >= 1, q as int == ua as int / ub as int, ua >= 0;
    }
    if (a >= 0) == (b > 0) || a == 0 {
        q as i64
    } else {
        -(q as i64)
    }
}

proof fn lemma_quot_bound(a: int, e: int, d: int)
    requires
        d != 0,
        abs(a) <= SCALE,
        abs(e) <= SCALE,
    ensures
        abs(a * e) <= SCALE * SCALE,
        abs(quot(a * e, d)) <= SCALE * SCALE,
{
    let s = SCALE as int;
    assert(abs(a * e) <= s * s) by (nonlinear_arith)
        requires abs(a) <= s, abs(e) <= s, s > 0;
    assert(abs(a * e) / abs(d) <= abs(a * e)) by (nonlinear_arith)
        requires abs(d) >= 1, abs(a * e) >= 0;
}

/// Walks a ray from `(p, q)` (x then y when `along_x`, y then x otherwise)
/// across the grid lines perpendicular to its stepping axis, whose direction
/// component is `d`, with `e` across it, and returns the offset
/// `(along, across)` at the first crossing whose cell is a wall, or at the cap.
pub fn cast_along(m: &WorldMap, p: i64, q: i64, d: i64, e: i64, along_x: bool) -> (r: (i64, i64))
    requires
        m.wf(),
        d != 0,
        pos_ok(p as int),
        pos_ok(q as int),
        unit_ok(d as int),
        unit_ok(e as int),
    ensures
        (r.0 as int, r.1 as int) == traversal(m.grid(), p as int, q as int, d as int, e as int, along_x),
        abs(r.0 as int) <= (MAX_STEPS + 1) * SCALE,
        abs(r.1 as int) <= (MAX_STEPS + 1) * (SCALE * SCALE),
{
    let ghost (gp, gq, gd, ge) = (p as int, q as int, d as int, e as int);
    let line: i64 = if d > 0 { -floor_cell(-p) * SCALE } else { floor_cell(p) * SCALE };
    let sa: i64 = if d > 0 { SCALE } else { -SCALE };
    let first: i64 = line - p;
    proof {
        let s = SCALE as int;
        assert(-s < first < s) by (nonlinear_arith)
            requires
                d > 0 ==> line == -((-gp) / s) * s,
                d <= 0 ==> line == (gp / s) * s,
                first == line - gp,
                s > 0;
        lemma_quot_bound(first as int, ge, gd);
        lemma_quot_bound(sa as int, ge, gd);
    }
    let first_b: i64 = quot_exec(first * e, d);
    let sb: i64 = quot_exec(sa * e, d);
    let lim: i64 = SCALE * SCALE;
    let mut na: i64 = first;
    let mut nb: i64 = first_b;
    let mut k: usize = 0;
    while k < MAX_STEPS
        invariant
            k <= MAX_STEPS,
            na as int == off_along(gp, gd, k as int),
            nb as int == off_across(gp, gd, ge, k as int),
            abs(na as int) <= (k + 1) * SCALE,
            abs(nb as int) <= (k + 1) * lim,
            abs(sb as int) <= lim,
            lim == SCALE * SCALE,
            sa as int == step_along(gd),
            sb as int == quot(step_along(gd) * ge, gd),
            first_b as int == quot(start_along(gp, gd) * ge, gd),
            pos_ok(gp),
            pos_ok(gq),
            gp == p,
            gq == q,
            gd == d,
            ge == e,
            d != 0,
            m.wf(),
            stop_from(m.grid(), gp, gq, gd, ge, along_x, 0) == stop_from(m.grid(), gp, gq, gd, ge, along_x, k as nat),
        decreases MAX_STEPS - k,
    {
        assert((k + 1) * lim <= 256 * lim) by (nonlinear_arith) requires k < 256, lim >= 0;
        let back: i64 = if d > 0 { 0 } else { SCALE };
        let pa: i64 = p + na - back;
        let pb: i64 = q + nb;
        let hit = if along_x { m.wall_at(pa, pb) } else { m.wall_at(pb, pa) };
        if hit {
            assert((k + 1) * SCALE <= 257 * SCALE) by (nonlinear_arith) requires k < 256;
            assert(probe_hit(m.grid(), gp, gq, gd, ge, along_x, k as int));
            return (na, nb);
        }
        assert(off_along(gp, gd, k + 1) == off_along(gp, gd, k as int) + step_along(gd)) by (nonlinear_arith);
        assert(off_across(gp, gd, ge, k + 1) == off_across(gp, gd, ge, k as int) + quot(step_along(gd) * ge, gd))
            by (nonlinear_arith);
        assert(abs(nb + sb) <= (k + 2) * lim) by (nonlinear_arith)
            requires abs(nb as int) <= (k + 1) * lim, abs(sb as int) <= lim;
        na = na + sa;
        nb = nb + sb;
        k = k + 1;
    }
    assert((k + 1) * SCALE <= 257 * SCALE) by (nonlinear_arith) requires k <= 256;
    assert((k + 1) * lim <= 257 * lim) by (nonlinear_arith) requires k <= 256, lim >= 0;
    (na, nb)
}

proof fn lemma_stop_at_most(g: Grid, p: int, q: int, d: int, e: int, along_x: bool, j: nat, k: nat)
    requires
        j <= k < MAX_STEPS,
        probe_hit(g, p, q, d, e, along_x, k as int),
    ensures
        stop_from(g, p, q, d, e, along_x, j) <= k,
    decreases k - j,
{
    if j < k && !probe_hit(g, p, q, d, e, along_x, j as int) {
        lemma_stop_at_most(g, p, q, d, e, along_x, j + 1, k);
    }
}

/// A traversal that starts strictly inside a grid no more than `MAX_STEPS`
/// cells long along its stepping axis meets a wall before the cap: the cells it
/// visits along that axis advance by one per crossing, and every cell past the
/// edge is a wall.
proof fn lemma_traversal_hits(g: Grid, p: int, q: int, d: int, e: int, along_x: bool, dim: int)
    requires
        dim == (if along_x { g.width } else { g.rows.len() as int }),
        dim <= MAX_STEPS,
        0 < p < dim * SCALE,
    ensures
        stop_from(g, p, q, d, e, along_x, 0) < MAX_STEPS,
{
    let s = SCALE as int;
    if d > 0 {
        let c = -cell_of(-p);
        assert(1 <= c <= dim) by (nonlinear_arith)
            requires 0 < p < dim * s, s > 0, c == -((-p) / s);
        let k = dim - c;
        assert(cell_of(p + off_along(p, d, k) - 0) == dim) by (nonlinear_arith)
            requires
                off_along(p, d, k) == (-((-p) / s) * s - p) + k * s,
                c == -((-p) / s),
                k == dim - c,
                s > 0,
                cell_of(p + off_along(p, d, k) - 0) == (p + off_along(p, d, k) - 0) / s;
        assert(probe_hit(g, p, q, d, e, along_x, k));
        lemma_stop_at_most(g, p, q, d, e, along_x, 0, k as nat);
    } else {
        let f = cell_of(p);
        assert(0 <= f < dim) by (nonlinear_arith)
            requires 0 < p < dim * s, s > 0, f == p / s;
        let k = f;
        assert(cell_of(p + off_along(p, d, k) - s) == -1) by (nonlinear_arith)
            requires
                off_along(p, d, k) == ((p / s) * s - p) + k * (-s),
                k == p / s,
                s > 0,
                cell_of(p + off_along(p, d, k) - s) == (p + off_along(p, d, k) - s) / s;
        assert(probe_hit(g, p, q, d, e, along_x, k));
        lemma_stop_at_most(g, p, q, d, e, along_x, 0, k as nat);
    }
}

/// On a map no taller than `MAX_STEPS` rows, every traversal of a ray cast
/// from a point strictly inside the grid, along either axis it can step on,
/// meets a wall within `MAX_STEPS` crossings.
pub proof fn lemma_rays_hit_walls(m: WorldMap, x: int, y: int, ray: Ray)
    requires
        m.wf(),
        m.height_spec() <= MAX_STEPS,
        0 < x < m.width_spec() * SCALE,
        0 < y < m.height_spec() * SCALE,
        ray.wf(),
    ensures
        ray.dir_x != 0 ==> stop_from(m.grid(), x, y, ray.dir_x as int, ray.dir_y as int, true, 0) < MAX_STEPS,
        ray.dir_y != 0 ==> stop_from(m.grid(), y, x, ray.dir_y as int, ray.dir_x as int, false, 0) < MAX_STEPS,
{
    lemma_traversal_hits(m.grid(), x, y, ray.dir_x as int, ray.dir_y as int, true, m.width_spec());
    lemma_traversal_hits(m.grid(), y, x, ray.dir_y as int, ray.dir_x as int, false, m.height_spec());
}

} // verus!
