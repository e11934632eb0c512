use vstd::prelude::*;

use crate::point::{
    in_bounds, next_point_spec, step_adjacent, PlayerDirection, Point, GRID_X_SIZE, GRID_Y_SIZE,
};
use crate::rng::random_below;

verus! {

/// The phase of the game.
#[derive(Copy, Clone, PartialEq, Eq, Structural, Debug)]
pub enum GameState {
    Playing,
    Paused,
    Over,
}

/// The whole game model: the snake body (head first), the travel direction,
/// the food cells, and the phase.
pub struct GameContext {
    pub player_position: Vec<Point>,
    pub player_direction: PlayerDirection,
    pub food: Vec<Point>,
    pub state: GameState,
}

/// The mathematical value of a game: body and food as sequences of cells.
#[verifier::ext_equal]
pub ghost struct GameView {
    pub body: Seq<Point>,
    pub direction: PlayerDirection,
    pub food: Seq<Point>,
    pub state: GameState,
}

impl View for GameContext {
    type V = GameView;

    open spec fn view(&self) -> GameView {
        GameView {
            body: self.player_position@,
            direction: self.player_direction,
            food: self.food@,
            state: self.state,
        }
    }
}

impl GameView {
    /// The cell the head moves to on the next tick.
    pub open spec fn next_head(self) -> Point {
        next_point_spec(self.body[0], self.direction)
    }

    /// Well-formedness of a game: the body is nonempty, lies on the grid,
    /// holds no cell twice, and its consecutive segments are one step apart;
    /// the food cells lie on the grid, are pairwise distinct, and none is
    /// under the body.
    pub open spec fn wf(self) -> bool {
        &&& self.body.len() >= 1
        &&& (forall|i: int| 0 <= i < self.body.len() ==> in_bounds(#[trigger] self.body[i]))
        &&& self.body.no_duplicates()
        &&& (forall|i: int|
            0 <= i < self.body.len() - 1 ==> step_adjacent(
                self.body[i + 1],
                #[trigger] self.body[i],
            ))
        &&& (forall|i: int| 0 <= i < self.food.len() ==> in_bounds(#[trigger] self.food[i]))
        &&& self.food.no_duplicates()
        &&& (forall|i: int| 0 <= i < self.food.len() ==> !self.body.contains(#[trigger] self.food[i]))
    }
}

/// The cell q holds neither a body segment nor a food point.
pub open spec fn free_cell(body: Seq<Point>, food: Seq<Point>, q: Point) -> bool {
    in_bounds(q) && !body.contains(q) && !food.contains(q)
}

/// Some grid cell is free of body and food.
pub open spec fn has_free_cell(body: Seq<Point>, food: Seq<Point>) -> bool {
    exists|q: Point| free_cell(body, food, q)
}

/// How the food changes when one point is spawned against a body: if any grid
/// cell is free, exactly one free cell is appended to the food; otherwise the
/// food stays as it was.
pub open spec fn spawned_from(body: Seq<Point>, food0: Seq<Point>, food1: Seq<Point>) -> bool {
    if has_free_cell(body, food0) {
        exists|q: Point| free_cell(body, food0, q) && food1 == food0.push(q)
    } else {
        food1 == food0
    }
}

/// The game as it is first constructed: a three-segment body moving right and
/// one food point.
pub open spec fn initial_view() -> GameView {
    GameView {
        body: seq![Point(3, 1), Point(2, 1), Point(1, 1)],
        direction: PlayerDirection::Right,
        food: seq![Point(3, 3)],
        state: GameState::Playing,
    }
}

/// The direction after a steering request for d: granted only while Playing
/// and only when the candidate head cell is not already part of the body;
/// otherwise the request is silently ignored.
pub open spec fn steered(v: GameView, d: PlayerDirection) -> PlayerDirection {
    if v.state == GameState::Playing && !v.body.contains(next_point_spec(v.body[0], d)) {
        d
    } else {
        v.direction
    }
}

/// The phase after a pause toggle: Playing and Paused swap; Over stays Over.
pub open spec fn toggled(s: GameState) -> GameState {
    match s {
        GameState::Playing => GameState::Paused,
        GameState::Paused => GameState::Playing,
        GameState::Over => GameState::Over,
    }
}

/// The game as first constructed is well formed.
pub proof fn lemma_initial_wf()
    ensures
        initial_view().wf(),
{
    let v = initial_view();
    assert(v.body.len() == 3);
    assert(next_point_spec(Point(2, 1), PlayerDirection::Right) == Point(3, 1));
    assert(step_adjacent(v.body[1], v.body[0]));
    assert(next_point_spec(Point(1, 1), PlayerDirection::Right) == Point(2, 1));
    assert(step_adjacent(v.body[2], v.body[1]));
}

impl GameContext {
    /// A fresh game: the initial body, direction, food, and phase. Always
    /// succeeds.
    pub fn new() -> (r: Result<Self, String>)
        ensures
            r is Ok,
            r->Ok_0@ == initial_view(),
            r->Ok_0@.wf(),
    {
        let g = GameContext {
            player_position: vec![Point(3, 1), Point(2, 1), Point(1, 1)],
            player_direction: PlayerDirection::Right,
            food: vec![Point(3, 3)],
            state: GameState::Playing,
        };
        proof {
            assert(g@ =~= initial_view());
            lemma_initial_wf();
        }
        Ok(g)
    }

    /// Reset the game to the exact initial construction values, whatever the
    /// phase; in particular this takes an Over game back to Playing.
    pub fn restart(&mut self)
        ensures
            final(self)@ == initial_view(),
            final(self)@.wf(),
    {
        self.player_position = vec![Point(3, 1), Point(2, 1), Point(1, 1)];
        self.player_direction = PlayerDirection::Right;
        self.food = vec![Point(3, 3)];
        self.state = GameState::Playing;
        proof {
            assert(self@ =~= initial_view());
            lemma_initial_wf();
        }
    }

    /// The cell the head would occupy after one step in the given direction,
    /// wrapped at the grid edges. Reads the model only.
    pub fn next_head_position(&mut self, direction: PlayerDirection) -> (r: Point)
        requires
            old(self)@.wf(),
        ensures
            final(self)@ == old(self)@,
            r == next_point_spec(old(self)@.body[0], direction),
            in_bounds(r),
    {
        assert(in_bounds(self@.body[0]));
        let head_position: Point = self.player_position[0];
        let stepped: Point = match direction {
            PlayerDirection::Up => head_position.add(Point(0, -1)),
            PlayerDirection::Down => head_position.add(Point(0, 1)),
            PlayerDirection::Right => head_position.add(Point(1, 0)),
            PlayerDirection::Left => head_position.add(Point(-1, 0)),
        };
        let x: i32 = if stepped.0 < 0 {
            GRID_X_SIZE - 1
        } else if stepped.0 >= GRID_X_SIZE {
            0
        } else {
            stepped.0
        };
        let y: i32 = if stepped.1 < 0 {
            GRID_Y_SIZE - 1
        } else if stepped.1 >= GRID_Y_SIZE {
            0
        } else {
            stepped.1
        };
        Point(x, y)
    }

    /// Request upward travel. The request is granted only while Playing and
    /// only if the cell above the head is not part of the body; otherwise it
    /// is silently ignored. Mutates the direction only.
    pub fn move_up(&mut self)
        requires
            old(self)@.wf(),
        ensures
            final(self)@.wf(),
            final(self)@.body == old(self)@.body,
            final(self)@.food == old(self)@.food,
            final(self)@.state == old(self)@.state,
            final(self)@.direction == steered(old(self)@, PlayerDirection::Up),
    {
        if self.state != GameState::Playing {
            return;
        }
        let next_head_position = self.next_head_position(PlayerDirection::Up);
        if contains_point(&self.player_position, next_head_position) {
            return;
        }
        self.player_direction = PlayerDirection::Up;
    }

    /// Request downward travel; granted under the same rule as move_up.
    pub fn move_down(&mut self)
        requires
            old(self)@.wf(),
        ensures
            final(self)@.wf(),
            final(self)@.body == old(self)@.body,
            final(self)@.food == old(self)@.food,
            final(self)@.state == old(self)@.state,
            final(self)@.direction == steered(old(self)@, PlayerDirection::Down),
    {
        if self.state != GameState::Playing {
            return;
        }
        let next_head_position = self.next_head_position(PlayerDirection::Down);
        if contains_point(&self.player_position, next_head_position) {
            return;
        }
        self.player_direction = PlayerDirection::Down;
    }

    /// Request rightward travel; granted under the same rule as move_up.
    pub fn move_right(&mut self)
        requires
            old(self)@.wf(),
        ensures
            final(self)@.wf(),
            final(self)@.body == old(self)@.body,
            final(self)@.food == old(self)@.food,
            final(self)@.state == old(self)@.state,
            final(self)@.direction == steered(old(self)@, PlayerDirection::Right),
    {
        if self.state != GameState::Playing {
            return;
        }
        let next_head_position = self.next_head_position(PlayerDirection::Right);
        if contains_point(&self.player_position, next_head_position) {
            return;
        }
        self.player_direction = PlayerDirection::Right;
    }

    /// Request leftward travel; granted under the same rule as move_up.
    pub fn move_left(&mut self)
        requires
            old(self)@.wf(),
        ensures
            final(self)@.wf(),
            final(self)@.body == old(self)@.body,
            final(self)@.food == old(self)@.food,
            final(self)@.state == old(self)@.state,
            final(self)@.direction == steered(old(self)@, PlayerDirection::Left),
    {
        if self.state != GameState::Playing {
            return;
        }
        let next_head_position = self.next_head_position(PlayerDirection::Left);
        if contains_point(&self.player_position, next_head_position) {
            return;
        }
        self.player_direction = PlayerDirection::Left;
    }

    /// Advance the game one tick: while Playing, step the head one cell in
    /// the current direction with wrap-around. A step onto the body ends the
    /// game (Over) and leaves body and food as they were. A step onto a food
    /// point grows the body by exactly one segment at the head, removes that
    /// food point, and spawns one new food point on a free cell if any cell
    /// is left free. Any other step moves the body one cell: the head
    /// advances and the tail is dropped. Outside Playing nothing changes.
    pub fn next_tick(&mut self)
        requires
            old(self)@.wf(),
        ensures
            final(self)@.wf(),
            final(self)@.direction == old(self)@.direction,
            old(self)@.state != GameState::Playing ==> final(self)@ == old(self)@,
            old(self)@.state == GameState::Playing ==> {
                let nh = old(self)@.next_head();
                if old(self)@.body.contains(nh) {
                    &&& final(self)@.state == GameState::Over
                    &&& final(self)@.body == old(self)@.body
                    &&& final(self)@.food == old(self)@.food
                } else if old(self)@.food.contains(nh) {
                    &&& final(self)@.state == GameState::Playing
                    &&& final(self)@.body == seq![nh] + old(self)@.body
                    &&& spawned_from(
                        final(self)@.body,
                        old(self)@.food.remove_value(nh),
                        final(self)@.food,
                    )
                } else {
                    &&& final(self)@.state == GameState::Playing
                    &&& final(self)@.body == seq![nh] + old(self)@.body.drop_last()
                    &&& final(self)@.food == old(self)@.food
                }
            },
            // the body grows by exactly one segment when the head lands on a
            // food point, and keeps its length in every other case
            final(self)@.body.len() == if old(self)@.state == GameState::Playing
                && !old(self)@.body.contains(old(self)@.next_head()) && old(self)@.food.contains(
                old(self)@.next_head(),
            ) {
                old(self)@.body.len() + 1
            } else {
                old(self)@.body.len()
            },
    {
        if self.state != GameState::Playing {
            return;
        }

        let direction = self.player_direction;
        let next_head_position = self.next_head_position(direction);

        if contains_point(&self.player_position, next_head_position) {
            self.state = GameState::Over;
            return;
        }

        let ghost body0 = self@.body;
        let ghost food0 = self@.food;
        self.player_position.insert(0, next_head_position);
        let ghost b1 = self@.body;
        proof {
            assert(b1 =~= seq![next_head_position] + body0);
            // the extended body is on the grid, duplicate-free, and connected
            assert forall|i: int| 0 <= i < b1.len() implies in_bounds(#[trigger] b1[i]) by {
                if i > 0 {
                    assert(b1[i] == body0[i - 1]);
                }
            };
            assert forall|i: int, j: int|
                0 <= i < b1.len() && 0 <= j < b1.len() && i != j implies b1[i] != b1[j] by {
                if i == 0 {
                    assert(b1[j] == body0[j - 1]);
                    assert(body0.contains(body0[j - 1]));
                } else if j == 0 {
                    assert(b1[i] == body0[i - 1]);
                    assert(body0.contains(body0[i - 1]));
                } else {
                    assert(b1[i] == body0[i - 1] && b1[j] == body0[j - 1]);
                }
            };
            assert(b1.no_duplicates());
            assert forall|i: int|
                0 <= i < b1.len() - 1 implies step_adjacent(b1[i + 1], #[trigger] b1[i]) by {
                if i == 0 {
                    assert(next_point_spec(body0[0], direction) == next_head_position);
                    assert(b1[1] == body0[0] && b1[0] == next_head_position);
                } else {
                    assert(b1[i] == body0[i - 1] && b1[i + 1] == body0[i]);
                }
            };
        }

        if contains_point(&self.food, next_head_position) {
            remove_point(&mut self.food, next_head_position);
            proof {
                // after the eaten point leaves, the remaining food is on the
                // grid and clear of the grown body
                let f1 = self@.food;
                assert forall|i: int|
                    0 <= i < f1.len() implies in_bounds(#[trigger] f1[i]) && !b1.contains(
                    f1[i]) by {
                    assert(f1.contains(f1[i]));
                    assert(food0.contains(f1[i]) && f1[i] != next_head_position);
                    let j = choose|j: int| 0 <= j < food0.len() && food0[j] == f1[i];
                    assert(in_bounds(food0[j]));
                    assert(!body0.contains(food0[j]));
                    if b1.contains(f1[i]) {
                        let k = choose|k: int| 0 <= k < b1.len() && b1[k] == f1[i];
                        assert(b1[k] == body0[k - 1]);
                        assert(body0.contains(body0[k - 1]));
                    }
                };
            }
            self.generate_food();
        } else {
            self.player_position.pop();
            proof {
                let b2 = self@.body;
                assert(b2 == b1.drop_last());
                assert(b2 =~= seq![next_head_position] + body0.drop_last());
                assert(b2.len() == body0.len());
                assert forall|i: int| 0 <= i < b2.len() implies in_bounds(#[trigger] b2[i]) by {
                    assert(b2[i] == b1[i]);
                };
                assert forall|i: int, j: int|
                    0 <= i < b2.len() && 0 <= j < b2.len() && i != j implies b2[i] != b2[j] by {
                    assert(b2[i] == b1[i] && b2[j] == b1[j]);
                };
                assert(b2.no_duplicates());
                assert forall|i: int|
                    0 <= i < b2.len() - 1 implies step_adjacent(b2[i + 1], #[trigger] b2[i]) by {
                    assert(b2[i] == b1[i] && b2[i + 1] == b1[i + 1]);
                };
                // the untouched food is still clear of the moved body
                assert forall|i: int|
                    0 <= i < food0.len() implies !b2.contains(#[trigger] food0[i]) by {
                    assert(in_bounds(food0[i]));
                    if b2.contains(food0[i]) {
                        let k = choose|k: int| 0 <= k < b2.len() && b2[k] == food0[i];
                        assert(b2[k] == b1[k]);
                        if k == 0 {
                            assert(food0.contains(food0[i]));
                        } else {
                            assert(b1[k] == body0[k - 1]);
                            assert(body0.contains(body0[k - 1]));
                        }
                    }
                };
            }
        }
    }

    /// Spawn one food point on a uniformly chosen free cell, gathered by
    /// enumerating every free cell of the grid; leave the food unchanged when
    /// no cell is free. Mutates the food only.
    fn generate_food(&mut self)
        requires
            old(self)@.wf(),
        ensures
            final(self)@.wf(),
            final(self)@.body == old(self)@.body,
            final(self)@.direction == old(self)@.direction,
            final(self)@.state == old(self)@.state,
            spawned_from(old(self)@.body, old(self)@.food, final(self)@.food),
    {
        let ghost body = self@.body;
        let ghost food0 = self@.food;
        let mut empty_points: Vec<Point> = Vec::new();
        let mut y: i32 = 0;
        while y < GRID_Y_SIZE
            invariant
                self@ == old(self)@,
                0 <= y <= GRID_Y_SIZE,
                body == self@.body,
                food0 == self@.food,
                forall|i: int|
                    0 <= i < empty_points@.len() ==> free_cell(
                        body,
                        food0,
                        #[trigger] empty_points@[i],
                    ),
                forall|q: Point|
                    free_cell(body, food0, q) && q.1 < y ==> empty_points@.contains(q),
            decreases GRID_Y_SIZE - y,
        {
            let mut x: i32 = 0;
            while x < GRID_X_SIZE
                invariant
                    self@ == old(self)@,
                    0 <= y < GRID_Y_SIZE,
                    0 <= x <= GRID_X_SIZE,
                    body == self@.body,
                    food0 == self@.food,
                    forall|i: int|
                        0 <= i < empty_points@.len() ==> free_cell(
                            body,
                            food0,
                            #[trigger] empty_points@[i],
                        ),
                    forall|q: Point|
                        free_cell(body, food0, q) && (q.1 < y || (q.1 == y && q.0 < x))
                            ==> empty_points@.contains(q),
                decreases GRID_X_SIZE - x,
            {
                let p = Point(x, y);
                let ghost pre = empty_points@;
                if !contains_point(&self.player_position, p) && !contains_point(&self.food, p) {
                    empty_points.push(p);
                }
                proof {
                    assert forall|q: Point|
                        free_cell(body, food0, q) && (q.1 < y || (q.1 == y && q.0 < x + 1))
                            implies empty_points@.contains(q) by {
                        if q.1 < y || (q.1 == y && q.0 < x) {
                            let j = choose|j: int| 0 <= j < pre.len() && pre[j] == q;
                            assert(empty_points@[j] == q);
                        } else {
                            assert(q == p);
                            assert(empty_points@[empty_points@.len() - 1] == q);
                        }
                    };
                }
                x = x + 1;
            }
            y = y + 1;
        }
        if empty_points.len() == 0 {
            proof {
                assert(!has_free_cell(body, food0)) by {
                    if has_free_cell(body, food0) {
                        let q = choose|q: Point| free_cell(body, food0, q);
                        assert(empty_points@.contains(q));
                    }
                };
            }
            return;
        }
        let idx = random_below(empty_points.len());
        let new_food = empty_points[idx];
        self.food.push(new_food);
        proof {
            assert(free_cell(body, food0, new_food));
            assert(self@.food == food0.push(new_food));
            assert(spawned_from(body, food0, self@.food));
            // the extended food stays well formed: the new cell is on the
            // grid, off the body, and not yet food
            let f1 = self@.food;
            assert forall|i: int| 0 <= i < f1.len() implies in_bounds(#[trigger] f1[i]) by {
                if i < food0.len() {
                    assert(f1[i] == food0[i]);
                }
            };
            assert forall|i: int| 0 <= i < f1.len() implies !body.contains(#[trigger] f1[i]) by {
                if i < food0.len() {
                    assert(f1[i] == food0[i]);
                }
            };
            assert(f1.no_duplicates()) by {
                assert forall|a: int, b: int| 0 <= a < b < f1.len() implies f1[a] != f1[b] by {
                    if b < food0.len() {
                        assert(f1[a] == food0[a] && f1[b] == food0[b]);
                    } else {
                        assert(f1[a] == food0[a] && f1[b] == new_food);
                        assert(food0.contains(food0[a]));
                    }
                };
            };
        }
    }

    /// Flip the phase between Playing and Paused; ignored when the game is
    /// Over. Mutates the phase only.
    pub fn toggle_pause(&mut self)
        ensures
            final(self)@.body == old(self)@.body,
            final(self)@.food == old(self)@.food,
            final(self)@.direction == old(self)@.direction,
            final(self)@.state == toggled(old(self)@.state),
            old(self)@.wf() ==> final(self)@.wf(),
    {
        self.state = match self.state {
            GameState::Playing => GameState::Paused,
            GameState::Paused => GameState::Playing,
            GameState::Over => GameState::Over,
        };
    }
}

/// Linear scan: whether v holds the cell p.
fn contains_point(v: &Vec<Point>, p: Point) -> (r: bool)
    ensures
        r == v@.contains(p),
{
    let mut i: usize = 0;
    while i < v.len()
        invariant
            i <= v@.len(),
            forall|j: int| 0 <= j < i ==> v@[j] != p,
        decreases v@.len() - i,
    {
        if v[i] == p {
            assert(v@[i as int] == p);
            return true;
        }
        i = i + 1;
    }
    assert(!v@.contains(p));
    false
}

/// Remove the one occurrence of p from v, shifting later elements left.
fn remove_point(v: &mut Vec<Point>, p: Point)
    requires
        old(v)@.no_duplicates(),
        old(v)@.contains(p),
    ensures
        final(v)@ == old(v)@.remove_value(p),
        final(v)@.len() == old(v)@.len() - 1,
        final(v)@.no_duplicates(),
        forall|q: Point| #[trigger] final(v)@.contains(q) <==> (old(v)@.contains(q) && q != p),
{
    let mut i: usize = 0;
    while i < v.len()
        invariant
            i <= v@.len(),
            v@ == old(v)@,
            forall|j: int| 0 <= j < i ==> v@[j] != p,
            v@.contains(p),
        ensures
            i < v@.len(),
            v@[i as int] == p,
            forall|j: int| 0 <= j < i ==> v@[j] != p,
            v@ == old(v)@,
        decreases v@.len() - i,
    {
        if v[i] == p {
            break;
        }
        i = i + 1;
        proof {
            if i == v@.len() {
                assert(!v@.contains(p));
            }
        }
    }
    proof {
        old(v)@.index_of_first_ensures(p);
        assert(old(v)@.index_of_first(p) == Some(i as int));
        old(v)@.remove_ensures(i as int);
    }
    v.remove(i);
    proof {
        let s0 = old(v)@;
        let s1 = v@;
        let k = i as int;
        assert(s1 == s0.remove_value(p));
        // no duplicates survive the removal
        assert forall|a: int, b: int| 0 <= a < b < s1.len() implies s1[a] != s1[b] by {
            let a0: int = if a < k { a } else { a + 1 };
            let b0: int = if b < k { b } else { b + 1 };
            assert(s1[a] == s0[a0]);
            assert(s1[b] == s0[b0]);
        };
        // membership: exactly the old elements other than p remain
        assert forall|q: Point| #[trigger] s1.contains(q) implies s0.contains(q) && q != p by {
            let j = choose|j: int| 0 <= j < s1.len() && s1[j] == q;
            let j0: int = if j < k { j } else { j + 1 };
            assert(s0[j0] == q);
            assert(j0 != k);
        };
        assert forall|q: Point| s0.contains(q) && q != p implies s1.contains(q) by {
            let j0 = choose|j0: int| 0 <= j0 < s0.len() && s0[j0] == q;
            let j: int = if j0 < k { j0 } else { j0 - 1 };
            assert(j0 != k);
            assert(s1[j] == q);
        };
    }
}

} // verus!
