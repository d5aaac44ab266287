use raycast::caster::Ray;
use raycast::map::{floor_cell, StateError, WorldMap};
use raycast::state::{create_state, GameState};
use raycast::view::{compute_view, isqrt, Column};
use raycast::state::reduce_angle;
use raycast::{HALF_FOV, HALF_SIZE, MAX_STEPS, POS_LIMIT, SCALE, SIZE, TWO_PI};

const BORDER_ROW: u64 = 0xFFFF_FFFF;
const SIDE_ROW: u64 = 0x8000_0001;

fn room(height: usize, extra: u64) -> Vec<u64> {
    let mut rows = vec![BORDER_ROW];
    for _ in 1..height - 1 {
        rows.push(SIDE_ROW | extra);
    }
    rows.push(BORDER_ROW);
    rows
}

fn fixed(v: f64) -> i64 {
    (v * SCALE as f64).round() as i64
}

fn rays_for(state: &GameState) -> Vec<Ray> {
    let heading = state.pose().angle as f64 / 1e9;
    state
        .column_angles()
        .iter()
        .map(|&a| {
            let angle = a as f64 / 1e9;
            Ray { dir_x: fixed(angle.cos()), dir_y: fixed(-angle.sin()), cos_offset: fixed((angle - heading).cos()) }
        })
        .collect()
}

fn view_at(rows: Vec<u64>, x: f64, y: f64, angle: f64) -> Vec<Column> {
    let state = create_state(rows, 32, fixed(x), fixed(y), (angle * 1e9).round() as i64).unwrap();
    compute_view(&state, &rays_for(&state))
}

#[test]
fn straight_ahead_in_border_room() {
    let view = view_at(room(32, 0), 16.0, 16.0, 0.0);
    let expected = (312.5f64 / 15.0).floor() as u32;
    assert_eq!(view[SIZE / 2].height, expected);
    assert_eq!(view[SIZE / 2].height, 20);
    assert_eq!(view[SIZE / 2].top, HALF_SIZE - 10);
}

#[test]
fn columns_are_indexed_left_to_right() {
    let view = view_at(room(32, 0), 10.5, 20.25, 1.0);
    assert_eq!(view.len(), SIZE);
    for (i, c) in view.iter().enumerate() {
        assert_eq!(c.index, i);
        assert_eq!(c.top, HALF_SIZE - (c.height / 2) as i32);
    }
}

#[test]
fn flat_wall_appears_flat() {
    let view = view_at(room(32, 0), 16.0, 16.0, 0.0);
    let min = view.iter().map(|c| c.height).min().unwrap();
    let max = view.iter().map(|c| c.height).max().unwrap();
    assert!(max - min <= 1, "heights range from {} to {}", min, max);
}

#[test]
fn farther_wall_is_shorter() {
    let far = view_at(room(32, 0), 16.0, 16.0, 0.0);
    let near = view_at(room(32, 1 << 24), 16.0, 16.0, 0.0);
    assert_eq!(near[SIZE / 2].height, (312.5f64 / 8.0).floor() as u32);
    assert!(far[SIZE / 2].height < near[SIZE / 2].height);
}

#[test]
fn edit_matches_create() {
    let rows = room(32, 1 << 9);
    let (x, y, a) = (fixed(7.25), fixed(21.5), 2_400_000_000i64);
    let origin = create_state(rows.clone(), 32, 0, 0, 0).unwrap();
    let moved = origin.edit_state(x, y, a).unwrap();
    let direct = create_state(rows, 32, x, y, a).unwrap();
    assert_eq!(compute_view(&moved, &rays_for(&moved)), compute_view(&direct, &rays_for(&direct)));
    assert_eq!(origin.pose().x, 0);
}

#[test]
fn every_ray_hits_a_wall_in_an_enclosed_room() {
    for &(x, y, a) in &[(16.0, 16.0, 0.0), (1.5, 1.5, 3.9), (30.9, 2.1, -1.2), (5.0, 29.0, 12.0)] {
        let view = view_at(room(32, 0), x, y, a);
        for c in &view {
            assert!(c.height >= 6, "column {} has height {}", c.index, c.height);
        }
    }
}

#[test]
fn outside_the_grid_is_wall() {
    let map = WorldMap::new(vec![0, 0, 0], 32).unwrap();
    assert!(map.wall_at(-1, 0));
    assert!(map.wall_at(32 * SCALE, SCALE));
    assert!(map.wall_at(SCALE, -SCALE / 2));
    assert!(map.wall_at(SCALE, 3 * SCALE));
    assert!(!map.wall_at(0, 0));
    assert!(!map.wall_at(31 * SCALE + 5, 2 * SCALE + 7));
    assert!(map.wall_cell(32, 0));
    assert!(map.wall_cell(0, -1));
}

#[test]
fn bits_select_columns() {
    let map = WorldMap::new(vec![0b100, 1 << 31], 32).unwrap();
    assert!(map.wall_cell(2, 0));
    assert!(!map.wall_cell(1, 0));
    assert!(map.wall_cell(31, 1));
    assert!(!map.wall_cell(30, 1));
    assert_eq!(map.height(), 2);
    assert_eq!(map.rows(), vec![0b100u64, 1 << 31]);
    assert_eq!(map.width(), 32);
}

#[test]
fn invalid_map_is_rejected() {
    assert_eq!(create_state(vec![], 32, 0, 0, 0).unwrap_err(), StateError::InvalidMap);
    assert_eq!(create_state(vec![1, 1 << 32], 32, 0, 0, 0).unwrap_err(), StateError::InvalidMap);
    assert_eq!(create_state(vec![], 32, i64::MAX, 0, 0).unwrap_err(), StateError::InvalidMap);
    assert_eq!(create_state(vec![1], 0, 0, 0, 0).unwrap_err(), StateError::InvalidMap);
    assert_eq!(create_state(vec![1], 65, 0, 0, 0).unwrap_err(), StateError::InvalidMap);
    assert_eq!(create_state(vec![0xFF, 0x100], 8, 0, 0, 0).unwrap_err(), StateError::InvalidMap);
}

#[test]
fn invalid_pose_is_rejected() {
    assert_eq!(create_state(vec![1], 32, i64::MAX, 0, 0).unwrap_err(), StateError::InvalidPose);
    assert_eq!(create_state(vec![1], 32, 0, i64::MIN, 0).unwrap_err(), StateError::InvalidPose);
    assert_eq!(create_state(vec![1], 32, POS_LIMIT + 1, 0, 0).unwrap_err(), StateError::InvalidPose);
    assert!(create_state(vec![1], 32, POS_LIMIT, -POS_LIMIT, 0).is_ok());
    let state = create_state(vec![1], 32, 0, 0, 0).unwrap();
    assert_eq!(state.edit_state(0, i64::MAX, 0).unwrap_err(), StateError::InvalidPose);
    assert_eq!(state.pose().y, 0);
}

#[test]
fn column_angles_sweep_the_field_of_view() {
    let state = create_state(vec![1], 32, 0, 0, 1_000).unwrap();
    let angles = state.column_angles();
    assert_eq!(angles.len(), SIZE);
    assert_eq!(angles[0], 1_000 + HALF_FOV);
    assert_eq!(angles[SIZE / 2], 1_000);
    assert!(angles.windows(2).all(|w| w[0] > w[1]));
}

#[test]
fn integer_square_roots() {
    assert_eq!(isqrt(0), 0);
    assert_eq!(isqrt(15), 3);
    assert_eq!(isqrt(16), 4);
    assert_eq!(isqrt(225 * (SCALE as u128) * (SCALE as u128)), 15 * SCALE as u64);
}

#[test]
fn floor_of_negative_coordinates() {
    assert_eq!(floor_cell(-1), -1);
    assert_eq!(floor_cell(-SCALE), -1);
    assert_eq!(floor_cell(-SCALE - 1), -2);
    assert_eq!(floor_cell(SCALE * 3 + 1), 3);
}

#[test]
fn ray_parallel_to_an_axis_uses_the_other() {
    let state = create_state(room(32, 0), 32, 16 * SCALE, 16 * SCALE, 0).unwrap();
    let mut rays = vec![Ray { dir_x: SCALE, dir_y: 0, cos_offset: SCALE }; SIZE];
    rays[1] = Ray { dir_x: 0, dir_y: -SCALE, cos_offset: SCALE };
    rays[2] = Ray { dir_x: 0, dir_y: 0, cos_offset: SCALE };
    assert!(rays[1].is_valid());
    assert!(!Ray { dir_x: SCALE + 1, dir_y: 0, cos_offset: 0 }.is_valid());
    let view = compute_view(&state, &rays);
    assert_eq!(view[0].height, 20);
    assert_eq!(view[1].height, (312.5f64 / 15.0).floor() as u32);
    assert_eq!(view[2].height, 20_480_000);
    assert!(MAX_STEPS >= 32);
}

#[test]
fn any_heading_is_accepted_and_kept() {
    let state = create_state(vec![1], 32, 0, 0, i64::MAX).unwrap();
    assert_eq!(state.pose().angle, i64::MAX);
    let angles = state.column_angles();
    assert_eq!(angles[SIZE / 2], i64::MAX % TWO_PI);
    let turned = create_state(room(32, 0), 32, 16 * SCALE, 16 * SCALE, 3 * TWO_PI).unwrap();
    let straight = create_state(room(32, 0), 32, 16 * SCALE, 16 * SCALE, 0).unwrap();
    assert_eq!(turned.column_angles(), straight.column_angles());
    assert_eq!(turned.edit_state(0, 0, i64::MIN).unwrap().pose().angle, i64::MIN);
}

#[test]
fn headings_reduce_to_one_turn() {
    assert_eq!(reduce_angle(0), 0);
    assert_eq!(reduce_angle(TWO_PI), 0);
    assert_eq!(reduce_angle(-1), TWO_PI - 1);
    assert_eq!(reduce_angle(-TWO_PI - 5), TWO_PI - 5);
    assert_eq!(reduce_angle(2 * TWO_PI + 7), 7);
}

#[test]
fn narrow_map_width_is_kept() {
    let rows = vec![0xFF, 0x81, 0x81, 0x81, 0xFF];
    let map = WorldMap::new(rows.clone(), 8).unwrap();
    assert_eq!(map.width(), 8);
    assert!(map.wall_cell(8, 2));
    assert!(!map.wall_cell(6, 2));
    let state = create_state(rows, 8, 4 * SCALE, 2 * SCALE + SCALE / 2, 0).unwrap();
    let view = view_from(&state);
    assert_eq!(view[SIZE / 2].height, (312.5f64 / 3.0).floor() as u32);
}

fn view_from(state: &GameState) -> Vec<Column> {
    compute_view(state, &rays_for(state))
}
