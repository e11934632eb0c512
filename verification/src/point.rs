use vstd::prelude::*;

use crate::rng::random_below;

verus! {

/// Number of columns of the play field.
pub const GRID_X_SIZE: i32 = 40;

/// Number of rows of the play field.
pub const GRID_Y_SIZE: i32 = 30;

/// One of the four orthogonal travel directions; the snake never moves
/// diagonally.
#[derive(Copy, Clone, PartialEq, Eq, Structural, Debug)]
pub enum PlayerDirection {
    Up,
    Down,
    Right,
    Left,
}

/// One cell of the grid, as a column and a row. The y axis grows downward.
#[derive(Copy, Clone, PartialEq, Eq, Structural, Debug)]
pub struct Point(pub i32, pub i32);

/// The point lies on the grid.
pub open spec fn in_bounds(p: Point) -> bool {
    0 <= p.0 < GRID_X_SIZE && 0 <= p.1 < GRID_Y_SIZE
}

/// The unit step a direction stands for, as (dx, dy).
pub open spec fn direction_delta(d: PlayerDirection) -> (int, int) {
    match d {
        PlayerDirection::Up => (0, -1),
        PlayerDirection::Down => (0, 1),
        PlayerDirection::Right => (1, 0),
        PlayerDirection::Left => (-1, 0),
    }
}

/// Normalize one coordinate that has stepped at most one cell outside
/// [0, size) back onto the torus: a negative coordinate reappears at size - 1,
/// one at or beyond size reappears at 0.
pub open spec fn wrap_coord(c: int, size: int) -> int {
    if c < 0 {
        size - 1
    } else if c >= size {
        0
    } else {
        c
    }
}

/// The cell one step from p in direction d, wrapped at the grid edges.
pub open spec fn next_point_spec(p: Point, d: PlayerDirection) -> Point {
    let (dx, dy) = direction_delta(d);
    Point(
        wrap_coord(p.0 + dx, GRID_X_SIZE as int) as i32,
        wrap_coord(p.1 + dy, GRID_Y_SIZE as int) as i32,
    )
}

/// One step can take the snake from a to b: some direction leads from a to b.
/// Consecutive body segments always stand in this relation.
pub open spec fn step_adjacent(a: Point, b: Point) -> bool {
    exists|d: PlayerDirection| next_point_spec(a, d) == b
}

impl Point {
    /// Component-wise sum of two points.
    pub fn add(self, rhs: Point) -> (r: Point)
        requires
            i32::MIN <= self.0 + rhs.0 <= i32::MAX,
            i32::MIN <= self.1 + rhs.1 <= i32::MAX,
        ensures
            r.0 == self.0 + rhs.0,
            r.1 == self.1 + rhs.1,
    {
        Point(self.0 + rhs.0, self.1 + rhs.1)
    }

    /// A point drawn uniformly from the whole grid; used for food placement.
    pub fn random() -> (r: Point)
        ensures
            in_bounds(r),
    {
        let x: usize = random_below(GRID_X_SIZE as usize);
        let y: usize = random_below(GRID_Y_SIZE as usize);
        Point(x as i32, y as i32)
    }
}

} // verus!
