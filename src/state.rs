//! The player's pose and the map, held together as an immutable game state.
use vstd::prelude::*;

use vstd::arithmetic::div_mod::{lemma_fundamental_div_mod, lemma_mod_multiples_vanish, lemma_small_mod};
use crate::map::{map_ok, Grid, StateError, WorldMap};
use crate::{FOV, HALF_FOV, POS_LIMIT, SIZE, TWO_PI};

verus! {

/// Player position in fixed-point grid units and heading in nanoradians.
#[derive(Debug, Clone, Copy, PartialEq, Eq, Structural)]
pub struct Pose {
    pub x: i64,
    pub y: i64,
    pub angle: i64,
}

/// Whether a position is within the range that the ray traversal's
/// fixed-point arithmetic holds; every heading is accepted.
pub open spec fn pose_ok(x: int, y: int) -> bool {
    -POS_LIMIT <= x <= POS_LIMIT && -POS_LIMIT <= y <= POS_LIMIT
}

impl Pose {
    pub open spec fn wf(&self) -> bool {
        pose_ok(self.x as int, self.y as int)
    }
}

/// A map and a pose; a new pose makes a new state.
#[derive(Debug)]
pub struct GameState {
    map: WorldMap,
    pose: Pose,
}

/// Heading of column `idx`: the left edge of the field of view at column 0,
/// sweeping right as `idx` grows. The heading is first reduced to `[0, 2 pi)`.
pub open spec fn column_angle_spec(angle: int, idx: int) -> int {
    angle % (TWO_PI as int) + HALF_FOV - (idx * FOV) / (SIZE as int)
}

/// A heading reduced to `[0, 2 pi)`.
pub fn reduce_angle(angle: i64) -> (r: i64)
    ensures
        r as int == angle as int % (TWO_PI as int),
        0 <= r < TWO_PI,
{
    if angle >= 0 {
        angle % TWO_PI
    } else {
        let w: i64 = -(angle + 1);
        let m: i64 = w % TWO_PI;
        proof {
            let t = TWO_PI as int;
            let q = (w as int) / t;
            lemma_fundamental_div_mod(w as int, t);
            assert(angle as int == t * (-(q + 1)) + (t - 1 - m as int)) by (nonlinear_arith)
                requires w as int == t * q + m as int, angle == -w - 1;
            lemma_mod_multiples_vanish(-(q + 1), t - 1 - m as int, t);
            lemma_small_mod((t - 1 - m as int) as nat, t as nat);
        }
        TWO_PI - 1 - m
    }
}

/// `s` is the state built from `rows`, `width` and the pose `(x, y, angle)`.
pub open spec fn created(rows: Seq<u64>, width: u32, x: i64, y: i64, angle: i64, s: GameState) -> bool {
    s.wf() && s.pose_spec() == (Pose { x, y, angle }) && s.map_spec().grid() == (Grid {
        rows,
        width: width as int,
    })
}

/// `t` is `s` with its pose replaced by `(x, y, angle)`.
pub open spec fn edited(s: GameState, x: i64, y: i64, angle: i64, t: GameState) -> bool {
    t.wf() && t.map_spec().grid() == s.map_spec().grid() && t.pose_spec() == (Pose { x, y, angle })
}

fn check_pose(x: i64, y: i64) -> (r: bool)
    ensures
        r == pose_ok(x as int, y as int),
{
    -POS_LIMIT <= x && x <= POS_LIMIT && -POS_LIMIT <= y && y <= POS_LIMIT
}

impl GameState {
    pub closed spec fn map_spec(&self) -> WorldMap {
        self.map
    }

    pub closed spec fn pose_spec(&self) -> Pose {
        self.pose
    }

    pub open spec fn wf(&self) -> bool {
        self.map_spec().wf() && self.pose_spec().wf()
    }

    /// The map.
    pub fn map(&self) -> (r: &WorldMap)
        ensures
            *r == self.map_spec(),
    {
        &self.map
    }

    /// The pose.
    pub fn pose(&self) -> (r: Pose)
        ensures
            r == self.pose_spec(),
    {
        self.pose
    }

    /// A new state with the same map and the pose `(x, y, angle)`; `self` is
    /// left as it is.
    pub fn edit_state(&self, x: i64, y: i64, angle: i64) -> (r: Result<GameState, StateError>)
        requires
            self.wf(),
        ensures
            r is Ok <==> pose_ok(x as int, y as int),
            r is Err ==> r == Err::<GameState, StateError>(StateError::InvalidPose),
            r matches Ok(s) ==> edited(*self, x, y, angle, s),
    {
        if !check_pose(x, y) {
            return Err(StateError::InvalidPose);
        }
        Ok(GameState { map: self.map.clone_map(), pose: Pose { x, y, angle } })
    }

    /// Headings of all `SIZE` columns, left to right.
    pub fn column_angles(&self) -> (r: Vec<i64>)
        requires
            self.wf(),
        ensures
            r@.len() == SIZE,
            forall|i: int| 0 <= i < SIZE ==> r@[i] as int == column_angle_spec(self.pose_spec().angle as int, i),
    {
        let angle = reduce_angle(self.pose.angle);
        let mut out: Vec<i64> = Vec::new();
        let mut i: usize = 0;
        while i < SIZE
            invariant
                i <= SIZE,
                out@.len() == i,
                angle as int == self.pose_spec().angle as int % (TWO_PI as int),
                0 <= angle < TWO_PI,
                forall|j: int| 0 <= j < i ==> out@[j] as int == column_angle_spec(self.pose_spec().angle as int, j),
            decreases SIZE - i,
        {
            let idx = i as i64;
            proof {
                assert(0 <= idx * FOV <= 500 * FOV) by (nonlinear_arith) requires 0 <= idx < 500;
            }
            out.push(angle + HALF_FOV - (idx * FOV) / (SIZE as i64));
            i = i + 1;
        }
        out
    }
}

/// Builds a state from map rows, the map's width and a pose. An invalid map
/// is reported before an invalid pose; the heading is kept as given.
pub fn create_state(rows: Vec<u64>, width: u32, x: i64, y: i64, angle: i64) -> (r: Result<GameState, StateError>)
    ensures
        r is Ok <==> map_ok(rows@, width) && pose_ok(x as int, y as int),
        r == Err::<GameState, StateError>(StateError::InvalidMap) <==> !map_ok(rows@, width),
        r == Err::<GameState, StateError>(StateError::InvalidPose) <==> map_ok(rows@, width) && !pose_ok(
            x as int,
            y as int,
        ),
        r matches Ok(s) ==> created(rows@, width, x, y, angle, s),
{
    let map = match WorldMap::new(rows, width) {
        Ok(m) => m,
        Err(e) => return Err(e),
    };
    if !check_pose(x, y) {
        return Err(StateError::InvalidPose);
    }
    Ok(GameState { map, pose: Pose { x, y, angle } })
}

} // verus!
