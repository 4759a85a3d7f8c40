use rnake::game::{GameContext, GameState, PlayerDirection, Point};

fn ctx(
    body: Vec<Point>,
    dir: PlayerDirection,
    food: Point,
    state: GameState,
    score: u32,
) -> GameContext {
    GameContext {
        player_position: body,
        player_direction: dir,
        food,
        state,
        score,
    }
}

#[test]
fn example_scenario_first_tick() {
    let mut g = GameContext::new();
    g.next_tick();
    assert_eq!(g.player_position, vec![Point(4, 1), Point(3, 1), Point(2, 1)]);
    assert_eq!(g.score, 0);
    assert_eq!(g.state, GameState::Playing);
    assert_eq!(g.food, Point(3, 3));
}

#[test]
fn movement_keeps_length_and_tail() {
    let mut g = GameContext::new();
    for step in 1..=5 {
        g.next_tick();
        assert_eq!(g.player_position.len(), 3);
        assert_eq!(g.player_position[0], Point(3 + step, 1));
        assert_eq!(g.state, GameState::Playing);
        assert_eq!(g.score, 0);
    }
}

#[test]
fn growth_on_food() {
    let mut g = GameContext::new();
    g.move_down();
    g.next_tick();
    assert_eq!(g.player_position[0], Point(3, 2));
    g.next_tick();
    assert_eq!(g.score, 1);
    assert_eq!(g.player_position.len(), 4);
    assert_eq!(
        g.player_position,
        vec![Point(3, 3), Point(3, 2), Point(3, 1), Point(2, 1)]
    );
    assert_eq!(g.state, GameState::Playing);
    assert!(!g.player_position.contains(&g.food));
    assert!(g.food.0 >= 0 && g.food.0 < 40 && g.food.1 >= 0 && g.food.1 < 30);
}

#[test]
fn boundary_death_right_wall() {
    let mut g = ctx(
        vec![Point(39, 5), Point(38, 5), Point(37, 5)],
        PlayerDirection::Right,
        Point(0, 0),
        GameState::Playing,
        0,
    );
    g.next_tick();
    assert_eq!(g.state, GameState::Over);
    // The head is still placed on the tick that hits the wall; the
    // stray cell is invisible because every later tick is a no-op.
    assert_eq!(g.player_position, vec![Point(40, 5), Point(39, 5), Point(38, 5)]);
    assert_eq!(g.score, 0);
}

#[test]
fn boundary_death_left_wall() {
    let mut g = ctx(
        vec![Point(0, 5), Point(1, 5), Point(2, 5)],
        PlayerDirection::Left,
        Point(9, 9),
        GameState::Playing,
        0,
    );
    g.next_tick();
    assert_eq!(g.state, GameState::Over);
}

#[test]
fn boundary_death_top_wall() {
    let mut g = ctx(
        vec![Point(5, 0), Point(5, 1), Point(5, 2)],
        PlayerDirection::Up,
        Point(9, 9),
        GameState::Playing,
        0,
    );
    g.next_tick();
    assert_eq!(g.state, GameState::Over);
}

#[test]
fn boundary_death_bottom_wall() {
    let mut g = ctx(
        vec![Point(5, 29), Point(5, 28), Point(5, 27)],
        PlayerDirection::Down,
        Point(9, 9),
        GameState::Playing,
        0,
    );
    g.next_tick();
    assert_eq!(g.state, GameState::Over);
}

#[test]
fn tail_vacancy_is_not_collision() {
    // A 2x2 loop: the head moves onto the cell the tail frees this
    // same tick.
    let mut g = ctx(
        vec![Point(1, 1), Point(2, 1), Point(2, 2), Point(1, 2)],
        PlayerDirection::Down,
        Point(5, 5),
        GameState::Playing,
        0,
    );
    g.next_tick();
    assert_eq!(g.state, GameState::Playing);
    assert_eq!(
        g.player_position,
        vec![Point(1, 2), Point(1, 1), Point(2, 1), Point(2, 2)]
    );
}

#[test]
fn self_collision_death() {
    // The head turns back into the body: the game ends, the tail is
    // already gone, and the head is not placed.
    let mut g = ctx(
        vec![Point(2, 2), Point(2, 3), Point(3, 3), Point(3, 2), Point(4, 2)],
        PlayerDirection::Right,
        Point(9, 9),
        GameState::Playing,
        0,
    );
    g.next_tick();
    assert_eq!(g.state, GameState::Over);
    assert_eq!(
        g.player_position,
        vec![Point(2, 2), Point(2, 3), Point(3, 3), Point(3, 2)]
    );
    assert_eq!(g.score, 0);
}

#[test]
fn tick_is_noop_when_paused() {
    let mut g = GameContext::new();
    g.toggle_pause();
    g.next_tick();
    assert_eq!(g.player_position, vec![Point(3, 1), Point(2, 1), Point(1, 1)]);
    assert_eq!(g.state, GameState::Paused);
    assert_eq!(g.score, 0);
}

#[test]
fn tick_is_noop_when_over() {
    let mut g = ctx(
        vec![Point(7, 7), Point(6, 7), Point(5, 7)],
        PlayerDirection::Right,
        Point(9, 9),
        GameState::Over,
        0,
    );
    g.next_tick();
    assert_eq!(g.player_position, vec![Point(7, 7), Point(6, 7), Point(5, 7)]);
    assert_eq!(g.state, GameState::Over);
}
