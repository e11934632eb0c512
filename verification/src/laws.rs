use vstd::prelude::*;

use crate::game_context::{free_cell, has_free_cell, spawned_from, toggled, GameState, GameView};
use crate::point::{
    in_bounds, next_point_spec, PlayerDirection, Point, GRID_X_SIZE, GRID_Y_SIZE,
};

verus! {

/// In every well-formed game — in particular every reachable one in phase
/// Playing or Paused, since the constructor establishes wf and every mutator
/// preserves it — the body holds no cell twice.
pub proof fn lemma_body_no_duplicates(v: GameView)
    requires
        v.wf(),
    ensures
        v.body.no_duplicates(),
{
}

/// Wrap law: one step off an edge of the grid lands on the opposite edge,
/// keeping the other coordinate. Stepping right from the last column lands in
/// column 0; stepping up from row 0 lands in the last row; and symmetrically
/// for left and down.
pub proof fn lemma_wrap_edges(p: Point)
    requires
        in_bounds(p),
    ensures
        p.0 == GRID_X_SIZE - 1 ==> next_point_spec(p, PlayerDirection::Right)
            == Point(0, p.1),
        p.1 == 0 ==> next_point_spec(p, PlayerDirection::Up)
            == Point(p.0, (GRID_Y_SIZE - 1) as i32),
        p.0 == 0 ==> next_point_spec(p, PlayerDirection::Left)
            == Point((GRID_X_SIZE - 1) as i32, p.1),
        p.1 == GRID_Y_SIZE - 1 ==> next_point_spec(p, PlayerDirection::Down)
            == Point(p.0, 0),
{
}

/// Pause idempotence: toggling the pause twice restores the phase it started
/// from; in particular two toggles from Playing end in Playing. Together with
/// toggle_pause's contract — body, food and direction never change — and
/// next_tick's contract — a game that is not Playing is left exactly as it
/// was — no state is mutated by pausing, unpausing, or ticking while Paused.
pub proof fn lemma_toggle_pause_involution(s: GameState)
    ensures
        toggled(toggled(s)) == s,
{
}

/// Food spawn exclusion: when a spawn starting from food clear of the body
/// adds a point, the new point — the last of the new food — lies on no body
/// segment, on no previously remaining food point, and the whole food stays
/// clear of the body and duplicate-free.
pub proof fn lemma_food_spawn_exclusion(body: Seq<Point>, food0: Seq<Point>, food1: Seq<Point>)
    requires
        spawned_from(body, food0, food1),
        forall|i: int| 0 <= i < food0.len() ==> !body.contains(#[trigger] food0[i]),
        food0.no_duplicates(),
    ensures
        forall|i: int| 0 <= i < food1.len() ==> !body.contains(#[trigger] food1[i]),
        food1.no_duplicates(),
        food1 != food0 ==> {
            let q = food1.last();
            &&& !body.contains(q)
            &&& !food0.contains(q)
            &&& forall|i: int| 0 <= i < food1.len() - 1 ==> food1[i] != q
        },
{
    if has_free_cell(body, food0) {
        let q = choose|q: Point| free_cell(body, food0, q) && food1 == food0.push(q);
        assert(food1 == food0.push(q));
        assert(food1.last() == q);
        assert forall|i: int| 0 <= i < food1.len() implies !body.contains(#[trigger] food1[i]) by {
            if i < food0.len() {
                assert(food1[i] == food0[i]);
            }
        };
        assert forall|i: int, j: int|
            0 <= i < food1.len() && 0 <= j < food1.len() && i != j implies food1[i] != food1[j] by {
            if i < food0.len() && j < food0.len() {
                assert(food1[i] == food0[i] && food1[j] == food0[j]);
            } else if i < food0.len() {
                assert(food1[i] == food0[i] && food1[j] == q);
                assert(food0.contains(food0[i]));
            } else {
                assert(food1[i] == q && food1[j] == food0[j]);
                assert(food0.contains(food0[j]));
            }
        };
        assert(food1.no_duplicates());
        if food1 != food0 {
            assert forall|i: int| 0 <= i < food1.len() - 1 implies food1[i] != q by {
                assert(food1[i] == food0[i]);
                assert(food0.contains(food0[i]));
            };
        }
    }
}

} // verus!
