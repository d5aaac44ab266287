//! From a ray's traversals to one screen column: the nearer wall, fisheye
//! correction, wall height and top offset.
use vstd::prelude::*;

use crate::caster::{abs, cast_along, traversal, Ray};
use crate::map::{Grid, WorldMap};
use crate::state::{created, edited, GameState};
use crate::{HALF_SIZE, POS_LIMIT, SCALE, SIZE, WALL_DEN, WALL_NUM};

verus! {

/// One screen column: its index, the row its wall strip starts at, and the
/// strip's height.
#[derive(Debug, Clone, Copy, PartialEq, Eq, Structural)]
pub struct Column {
    pub index: usize,
    pub top: i32,
    pub height: u32,
}

pub open spec fn norm2(a: int, b: int) -> int {
    a * a + b * b
}

/// Squared length of the ray up to the first wall on a vertical grid line,
/// or `None` when the ray runs parallel to those lines.
pub open spec fn vertical_dist2(g: Grid, x: int, y: int, ray: Ray) -> Option<int> {
    if ray.dir_x == 0 {
        None
    } else {
        let t = traversal(g, x, y, ray.dir_x as int, ray.dir_y as int, true);
        Some(norm2(t.0, t.1))
    }
}

/// Squared length of the ray up to the first wall on a horizontal grid line,
/// or `None` when the ray runs parallel to those lines.
pub open spec fn horizontal_dist2(g: Grid, x: int, y: int, ray: Ray) -> Option<int> {
    if ray.dir_y == 0 {
        None
    } else {
        let t = traversal(g, y, x, ray.dir_y as int, ray.dir_x as int, false);
        Some(norm2(t.0, t.1))
    }
}

/// Squared distance to the nearer of the two walls; zero when neither axis
/// can be stepped on.
pub open spec fn raw_dist2(g: Grid, x: int, y: int, ray: Ray) -> int {
    match (vertical_dist2(g, x, y, ray), horizontal_dist2(g, x, y, ray)) {
        (Some(v), Some(h)) => if v <= h { v } else { h },
        (Some(v), None) => v,
        (None, Some(h)) => h,
        (None, None) => 0,
    }
}

/// `r` is the square root of `n`, rounded down.
pub open spec fn is_sqrt_floor(n: int, r: int) -> bool {
    0 <= r && r * r <= n < (r + 1) * (r + 1)
}

pub open spec fn sqrt_floor(n: int) -> int {
    choose|r: int| is_sqrt_floor(n, r)
}

/// Distance along the view direction, in fixed-point units: the distance
/// times the cosine of the ray's offset from the heading, raised to the
/// smallest positive distance when it is smaller.
pub open spec fn corrected(dist: int, cos_offset: int) -> int {
    if dist * cos_offset < SCALE {
        1
    } else {
        (dist * cos_offset) / (SCALE as int)
    }
}

/// Wall height on screen for a corrected distance: the wall height constant
/// divided by the distance in cells, rounded down.
pub open spec fn height_of(c: int) -> int {
    (WALL_NUM * SCALE) / (WALL_DEN * c)
}

/// Row at which a strip of height `h` starts, centred on the screen.
pub open spec fn top_of(h: int) -> int {
    HALF_SIZE - h / 2
}

/// Wall height seen by `ray` from `(x, y)`.
pub open spec fn column_height(g: Grid, x: int, y: int, ray: Ray) -> int {
    height_of(corrected(sqrt_floor(raw_dist2(g, x, y, ray)), ray.cos_offset as int))
}

/// The column at index `idx` seen by `ray` from `(x, y)`.
pub open spec fn column_spec(g: Grid, x: int, y: int, ray: Ray, idx: int) -> Column {
    let h = column_height(g, x, y, ray);
    Column { index: idx as usize, top: top_of(h) as i32, height: h as u32 }
}

/// The view from `state` through `rays`.
pub open spec fn view_spec(state: GameState, rays: Seq<Ray>) -> Seq<Column> {
    Seq::new(
        rays.len(),
        |i: int|
            column_spec(state.map_spec().grid(), state.pose_spec().x as int, state.pose_spec().y as int, rays[i], i),
    )
}

proof fn lemma_sqrt_unique(n: int, r: int)
    requires
        is_sqrt_floor(n, r),
    ensures
        sqrt_floor(n) == r,
{
    let t = sqrt_floor(n);
    assert(is_sqrt_floor(n, t));
    if t < r {
        assert((t + 1) * (t + 1) <= r * r) by (nonlinear_arith) requires 0 <= t, t + 1 <= r;
    } else if r < t {
        assert((r + 1) * (r + 1) <= t * t) by (nonlinear_arith) requires 0 <= r, r + 1 <= t;
    }
}

/// Square root of `n`, rounded down.
pub fn isqrt(n: u128) -> (r: u64)
    requires
        n < 0x10_0000_0000_0000_0000_0000,
    ensures
        r as int == sqrt_floor(n as int),
        r < 0x400_0000_0000,
{
    let mut lo: u128 = 0;
    let mut hi: u128 = 0x400_0000_0000;
    assert(hi * hi == 0x10_0000_0000_0000_0000_0000);
    while hi - lo > 1
        invariant
            lo < hi <= 0x400_0000_0000,
            lo * lo <= n,
            n < hi * hi,
        decreases hi - lo,
    {
        let mid: u128 = lo + (hi - lo) / 2;
        assert(mid * mid <= 0x10_0000_0000_0000_0000_0000) by (nonlinear_arith)
            requires mid <= 0x400_0000_0000;
        if mid * mid <= n {
            lo = mid;
        } else {
            hi = mid;
        }
    }
    assert(hi == lo + 1);
    proof {
        lemma_sqrt_unique(n as int, lo as int);
    }
    lo as u64
}

/// Squared length of an offset.
fn length2(a: i64, b: i64) -> (r: u128)
    requires
        abs(a as int) <= 0x200_0000_0000,
        abs(b as int) <= 0x200_0000_0000,
    ensures
        r as int == norm2(a as int, b as int),
        r <= 0x8_0000_0000_0000_0000_0000,
{
    let wa = a as i128;
    let wb = b as i128;
    assert(wa * wa <= 0x4_0000_0000_0000_0000_0000 && wb * wb <= 0x4_0000_0000_0000_0000_0000)
        by (nonlinear_arith)
        requires abs(wa as int) <= 0x200_0000_0000, abs(wb as int) <= 0x200_0000_0000;
    assert(wa * wa >= 0 && wb * wb >= 0) by (nonlinear_arith);
    (wa * wa + wb * wb) as u128
}

/// The column at index `idx` seen by `ray` from `(x, y)`.
pub fn compute_column(m: &WorldMap, x: i64, y: i64, ray: Ray, idx: usize) -> (r: Column)
    requires
        m.wf(),
        -POS_LIMIT <= x <= POS_LIMIT,
        -POS_LIMIT <= y <= POS_LIMIT,
        ray.wf(),
    ensures
        r == column_spec(m.grid(), x as int, y as int, ray, idx as int),
{
    let ghost g = m.grid();
    let mut best: u128 = 0;
    let mut found: bool = false;
    if ray.dir_x != 0 {
        let (a, b) = cast_along(m, x, y, ray.dir_x, ray.dir_y, true);
        best = length2(a, b);
        found = true;
    }
    if ray.dir_y != 0 {
        let (a, b) = cast_along(m, y, x, ray.dir_y, ray.dir_x, false);
        let h = length2(a, b);
        if !found || h < best {
            best = h;
        }
    }
    assert(best as int == raw_dist2(g, x as int, y as int, ray));
    let dist: u64 = isqrt(best);
    let wd = dist as i128;
    let wc = ray.cos_offset as i128;
    assert(abs(wd * wc) <= 0x400_0000_0000 * SCALE) by (nonlinear_arith)
        requires 0 <= wd < 0x400_0000_0000, abs(wc as int) <= SCALE;
    let p: i128 = wd * wc;
    let c: i128 = if p < SCALE as i128 { 1 } else { p / (SCALE as i128) };
    let h: i128 = (WALL_NUM as i128 * SCALE as i128) / (WALL_DEN as i128 * c);
    assert(0 <= h <= 20480000) by (nonlinear_arith)
        requires c >= 1, h as int == 40960000int / (2 * c as int);
    Column { index: idx, top: (HALF_SIZE as i128 - h / 2) as i32, height: h as u32 }
}

/// The view from a state: one column per ray, left to right, each with its
/// index.
pub fn compute_view(state: &GameState, rays: &Vec<Ray>) -> (r: Vec<Column>)
    requires
        state.wf(),
        rays@.len() == SIZE,
        forall|i: int| 0 <= i < SIZE ==> (#[trigger] rays@[i]).wf(),
    ensures
        r@ == view_spec(*state, rays@),
{
    let m = state.map();
    let pose = state.pose();
    let mut out: Vec<Column> = Vec::new();
    let mut i: usize = 0;
    while i < SIZE
        invariant
            i <= SIZE,
            out@.len() == i,
            *m == state.map_spec(),
            pose == state.pose_spec(),
            state.wf(),
            rays@.len() == SIZE,
            forall|j: int| 0 <= j < SIZE ==> (#[trigger] rays@[j]).wf(),
            forall|j: int| 0 <= j < i ==> #[trigger] out@[j] == column_spec(m.grid(), pose.x as int,
                pose.y as int, rays@[j], j),
        decreases SIZE - i,
    {
        let col = compute_column(m, pose.x, pose.y, rays[i], i);
        out.push(col);
        i = i + 1;
    }
    assert(out@ =~= view_spec(*state, rays@));
    out
}

/// Wall height does not grow with distance, and the farther of two corrected
/// distances gives a strictly smaller height whenever the exact quotients
/// differ by at least one.
pub proof fn lemma_height_decreasing(c1: int, c2: int)
    requires
        1 <= c1 < c2,
    ensures
        height_of(c1) >= height_of(c2),
        WALL_DEN * c1 * c2 <= WALL_NUM * SCALE * (c2 - c1) ==> height_of(c1) > height_of(c2),
{
    let n = WALL_NUM * SCALE;
    let h2 = height_of(c2);
    assert(h2 * (2 * c2) <= n) by (nonlinear_arith) requires c2 >= 1, h2 == n / (2 * c2), n >= 0;
    assert(h2 * (2 * c1) <= n) by (nonlinear_arith) requires h2 * (2 * c2) <= n, 1 <= c1 < c2, h2 >= 0;
    assert(h2 <= n / (2 * c1)) by (nonlinear_arith) requires h2 * (2 * c1) <= n, c1 >= 1;
    if 2 * c1 * c2 <= n * (c2 - c1) {
        assert((h2 + 1) * (2 * c1) <= n) by (nonlinear_arith)
            requires h2 * (2 * c2) <= n, 2 * c1 * c2 <= n * (c2 - c1), 1 <= c1 < c2, h2 >= 0;
        assert(h2 + 1 <= n / (2 * c1)) by (nonlinear_arith) requires (h2 + 1) * (2 * c1) <= n, c1 >= 1;
    }
}

/// Moving the player of a state built at the origin gives the same view as
/// building the state at the new pose directly.
pub proof fn lemma_edit_matches_create(
    rows: Seq<u64>,
    width: u32,
    x: i64,
    y: i64,
    angle: i64,
    rays: Seq<Ray>,
    origin: GameState,
    moved: GameState,
    direct: GameState,
)
    requires
        created(rows, width, 0, 0, 0, origin),
        edited(origin, x, y, angle, moved),
        created(rows, width, x, y, angle, direct),
    ensures
        view_spec(moved, rays) == view_spec(direct, rays),
{
    assert(view_spec(moved, rays) =~= view_spec(direct, rays));
}

} // verus!
