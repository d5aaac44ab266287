//! Grid raycasting for a pseudo-3D first-person view.
//!
//! Positions are fixed-point numbers with `SCALE` units per grid cell and
//! angles are integers in nanoradians. Trigonometry is done by the host, which
//! hands each column's ray direction and fisheye factor in as fixed-point values.
use vstd::prelude::*;

pub mod map;
pub mod caster;
pub mod view;
pub mod state;

verus! {

/// Fixed-point units per grid cell.
pub const SCALE: i64 = 65536;

/// Number of screen columns in a view.
pub const SIZE: usize = 500;

/// Half the number of screen columns.
pub const HALF_SIZE: i32 = 250;

/// Cap on the grid lines a single ray traversal crosses.
pub const MAX_STEPS: usize = 256;

/// Field of view in nanoradians (pi / 2.7).
pub const FOV: i64 = 1163552835;

/// Half the field of view in nanoradians.
pub const HALF_FOV: i64 = 581776417;

/// Wall height constant `SIZE / 1.6`, as the fraction `WALL_NUM / WALL_DEN`.
pub const WALL_NUM: i64 = 625;

/// Denominator of the wall height constant.
pub const WALL_DEN: i64 = 2;

/// Largest magnitude of a pose coordinate, in fixed-point units: half the
/// `i64` range, leaving room for a ray's offsets.
pub const POS_LIMIT: i64 = 0x4000_0000_0000_0000;

/// A full turn in nanoradians (2 pi).
pub const TWO_PI: i64 = 6283185307;

} // verus!
