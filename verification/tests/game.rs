use snake_core::game_context::{GameContext, GameState};
use snake_core::point::{PlayerDirection, Point, GRID_X_SIZE, GRID_Y_SIZE};

fn playing(body: Vec<Point>, direction: PlayerDirection, food: Vec<Point>) -> GameContext {
    GameContext {
        player_position: body,
        player_direction: direction,
        food,
        state: GameState::Playing,
    }
}

#[test]
fn new_game_has_the_documented_initial_values() {
    let g = GameContext::new().unwrap();
    assert_eq!(g.player_position, vec![Point(3, 1), Point(2, 1), Point(1, 1)]);
    assert_eq!(g.player_direction, PlayerDirection::Right);
    assert_eq!(g.food, vec![Point(3, 3)]);
    assert_eq!(g.state, GameState::Playing);
}

#[test]
fn wrap_right_from_last_column() {
    let mut g = playing(
        vec![Point(GRID_X_SIZE - 1, 5), Point(GRID_X_SIZE - 2, 5)],
        PlayerDirection::Right,
        vec![],
    );
    let head = g.next_head_position(PlayerDirection::Right);
    assert_eq!(head, Point(0, 5));
}

#[test]
fn wrap_up_from_first_row() {
    let mut g = playing(vec![Point(7, 0), Point(7, 1)], PlayerDirection::Up, vec![]);
    let head = g.next_head_position(PlayerDirection::Up);
    assert_eq!(head, Point(7, GRID_Y_SIZE - 1));
}

#[test]
fn wrap_left_from_first_column() {
    let mut g = playing(vec![Point(0, 5), Point(1, 5)], PlayerDirection::Left, vec![]);
    let head = g.next_head_position(PlayerDirection::Left);
    assert_eq!(head, Point(GRID_X_SIZE - 1, 5));
}

#[test]
fn wrap_down_from_last_row() {
    let mut g = playing(
        vec![Point(7, GRID_Y_SIZE - 1), Point(7, GRID_Y_SIZE - 2)],
        PlayerDirection::Down,
        vec![],
    );
    let head = g.next_head_position(PlayerDirection::Down);
    assert_eq!(head, Point(7, 0));
}

#[test]
fn tick_moves_the_body_one_cell() {
    let mut g = playing(
        vec![Point(3, 1), Point(2, 1), Point(1, 1)],
        PlayerDirection::Right,
        vec![],
    );
    g.next_tick();
    assert_eq!(g.player_position, vec![Point(4, 1), Point(3, 1), Point(2, 1)]);
    assert_eq!(g.state, GameState::Playing);
    assert!(g.food.is_empty());
}

#[test]
fn tick_wraps_the_head_at_the_edge() {
    let mut g = playing(
        vec![Point(GRID_X_SIZE - 1, 5), Point(GRID_X_SIZE - 2, 5)],
        PlayerDirection::Right,
        vec![],
    );
    g.next_tick();
    assert_eq!(g.player_position[0], Point(0, 5));
    assert_eq!(g.state, GameState::Playing);
}

#[test]
fn collision_ends_the_game_and_keeps_the_body() {
    let mut g = playing(
        vec![Point(5, 5), Point(4, 5), Point(3, 5)],
        PlayerDirection::Left,
        vec![],
    );
    g.next_tick();
    assert_eq!(g.state, GameState::Over);
    assert_eq!(g.player_position, vec![Point(5, 5), Point(4, 5), Point(3, 5)]);
    assert_eq!(g.player_position.len(), 3);
}

#[test]
fn stepping_onto_the_tail_cell_also_collides() {
    let mut g = playing(
        vec![Point(5, 5), Point(4, 5), Point(4, 6), Point(5, 6)],
        PlayerDirection::Down,
        vec![],
    );
    g.next_tick();
    assert_eq!(g.state, GameState::Over);
    assert_eq!(g.player_position.len(), 4);
}

#[test]
fn growth_adds_the_head_keeps_the_tail_and_respawns_food() {
    let mut g = playing(
        vec![Point(3, 1), Point(2, 1), Point(1, 1)],
        PlayerDirection::Right,
        vec![Point(4, 1)],
    );
    g.next_tick();
    assert_eq!(
        g.player_position,
        vec![Point(4, 1), Point(3, 1), Point(2, 1), Point(1, 1)]
    );
    assert_eq!(g.player_position.len(), 4);
    assert!(!g.food.contains(&Point(4, 1)));
    assert_eq!(g.food.len(), 1);
    assert!(!g.player_position.contains(&g.food[0]));
    assert_eq!(g.state, GameState::Playing);
}

#[test]
fn spawned_food_avoids_body_and_remaining_food() {
    let mut g = playing(
        vec![Point(3, 1), Point(2, 1), Point(1, 1)],
        PlayerDirection::Right,
        vec![Point(4, 1), Point(10, 10)],
    );
    g.next_tick();
    assert_eq!(g.player_position.len(), 4);
    assert!(!g.food.contains(&Point(4, 1)));
    assert_eq!(g.food.len(), 2);
    assert!(g.food.contains(&Point(10, 10)));
    let spawned = *g.food.last().unwrap();
    assert!(!g.player_position.contains(&spawned));
    assert_ne!(spawned, Point(10, 10));
    for x in 0..GRID_X_SIZE {
        for y in 0..GRID_Y_SIZE {
            let cell = Point(x, y);
            let in_body = g.player_position.contains(&cell);
            let in_food = g.food.contains(&cell);
            assert!(!(in_body && in_food));
        }
    }
}

#[test]
fn growth_on_a_full_grid_leaves_no_new_food() {
    let body = vec![Point(3, 1), Point(2, 1), Point(1, 1)];
    let mut food = Vec::new();
    for x in 0..GRID_X_SIZE {
        for y in 0..GRID_Y_SIZE {
            let cell = Point(x, y);
            if !body.contains(&cell) {
                food.push(cell);
            }
        }
    }
    let expected_len = food.len() - 1;
    let mut g = playing(body, PlayerDirection::Right, food);
    g.next_tick();
    assert_eq!(g.player_position.len(), 4);
    assert!(!g.food.contains(&Point(4, 1)));
    assert_eq!(g.food.len(), expected_len);
}

#[test]
fn steering_into_the_body_is_ignored() {
    let mut g = playing(
        vec![Point(3, 1), Point(2, 1), Point(1, 1)],
        PlayerDirection::Right,
        vec![],
    );
    g.move_left();
    assert_eq!(g.player_direction, PlayerDirection::Right);
}

#[test]
fn steering_to_a_free_cell_is_granted() {
    let mut g = playing(
        vec![Point(3, 1), Point(2, 1), Point(1, 1)],
        PlayerDirection::Right,
        vec![],
    );
    g.move_up();
    assert_eq!(g.player_direction, PlayerDirection::Up);
    assert_eq!(g.player_position, vec![Point(3, 1), Point(2, 1), Point(1, 1)]);
    g.move_down();
    assert_eq!(g.player_direction, PlayerDirection::Down);
    g.move_right();
    assert_eq!(g.player_direction, PlayerDirection::Right);
}

#[test]
fn steering_is_ignored_while_paused_or_over() {
    let mut g = playing(
        vec![Point(3, 1), Point(2, 1), Point(1, 1)],
        PlayerDirection::Right,
        vec![],
    );
    g.toggle_pause();
    g.move_up();
    assert_eq!(g.player_direction, PlayerDirection::Right);
    g.state = GameState::Over;
    g.move_down();
    assert_eq!(g.player_direction, PlayerDirection::Right);
}

#[test]
fn toggling_pause_twice_returns_to_playing_unchanged() {
    let mut g = GameContext::new().unwrap();
    g.toggle_pause();
    assert_eq!(g.state, GameState::Paused);
    g.toggle_pause();
    assert_eq!(g.state, GameState::Playing);
    assert_eq!(g.player_position, vec![Point(3, 1), Point(2, 1), Point(1, 1)]);
    assert_eq!(g.player_direction, PlayerDirection::Right);
    assert_eq!(g.food, vec![Point(3, 3)]);
}

#[test]
fn ticking_while_paused_changes_nothing() {
    let mut g = GameContext::new().unwrap();
    g.toggle_pause();
    g.next_tick();
    g.next_tick();
    assert_eq!(g.player_position, vec![Point(3, 1), Point(2, 1), Point(1, 1)]);
    assert_eq!(g.player_direction, PlayerDirection::Right);
    assert_eq!(g.food, vec![Point(3, 3)]);
    assert_eq!(g.state, GameState::Paused);
}

#[test]
fn ticking_while_over_changes_nothing() {
    let mut g = playing(
        vec![Point(5, 5), Point(4, 5), Point(3, 5)],
        PlayerDirection::Left,
        vec![Point(9, 9)],
    );
    g.next_tick();
    assert_eq!(g.state, GameState::Over);
    g.next_tick();
    assert_eq!(g.state, GameState::Over);
    assert_eq!(g.player_position, vec![Point(5, 5), Point(4, 5), Point(3, 5)]);
    assert_eq!(g.food, vec![Point(9, 9)]);
}

#[test]
fn toggle_pause_is_ignored_when_over() {
    let mut g = playing(
        vec![Point(5, 5), Point(4, 5), Point(3, 5)],
        PlayerDirection::Left,
        vec![],
    );
    g.next_tick();
    assert_eq!(g.state, GameState::Over);
    g.toggle_pause();
    assert_eq!(g.state, GameState::Over);
}

#[test]
fn restart_resets_to_the_initial_game() {
    let mut g = playing(
        vec![Point(5, 5), Point(4, 5), Point(3, 5)],
        PlayerDirection::Left,
        vec![Point(9, 9)],
    );
    g.next_tick();
    assert_eq!(g.state, GameState::Over);
    g.restart();
    assert_eq!(g.player_position, vec![Point(3, 1), Point(2, 1), Point(1, 1)]);
    assert_eq!(g.player_direction, PlayerDirection::Right);
    assert_eq!(g.food, vec![Point(3, 3)]);
    assert_eq!(g.state, GameState::Playing);
}

#[test]
fn a_long_run_keeps_the_body_free_of_duplicates() {
    let mut g = GameContext::new().unwrap();
    let mut ticks = 0;
    while g.state == GameState::Playing && ticks < 500 {
        g.next_tick();
        ticks += 1;
        for i in 0..g.player_position.len() {
            for j in (i + 1)..g.player_position.len() {
                assert_ne!(g.player_position[i], g.player_position[j]);
            }
        }
        for p in &g.food {
            assert!(!g.player_position.contains(p) || g.state == GameState::Over);
        }
    }
}
