use rnake::game::{GameContext, GameState, PlayerDirection, Point};

#[test]
fn respawn_always_misses_the_body() {
    let mut g = GameContext {
        player_position: vec![
            Point(0, 0),
            Point(1, 0),
            Point(2, 0),
            Point(3, 0),
            Point(4, 0),
            Point(4, 1),
            Point(3, 1),
            Point(2, 1),
            Point(1, 1),
            Point(0, 1),
        ],
        player_direction: PlayerDirection::Down,
        food: Point(9, 9),
        state: GameState::Playing,
        score: 7,
    };
    for _ in 0..200 {
        g.respawn_food();
        assert!(g.food.0 >= 0 && g.food.0 < 40 && g.food.1 >= 0 && g.food.1 < 30);
        assert!(!g.player_position.contains(&g.food));
    }
}

#[test]
fn respawn_finds_the_single_free_cell() {
    // Cover every grid cell but one: the food has nowhere else to go.
    let mut body = Vec::new();
    for y in 0..30 {
        for x in 0..40 {
            if !(x == 39 && y == 29) {
                body.push(Point(x, y));
            }
        }
    }
    let mut g = GameContext {
        player_position: body,
        player_direction: PlayerDirection::Right,
        food: Point(0, 0),
        state: GameState::Playing,
        score: 0,
    };
    for _ in 0..3 {
        g.respawn_food();
        assert_eq!(g.food, Point(39, 29));
    }
}

#[test]
fn eaten_food_respawns_off_the_grown_body() {
    let mut g = GameContext::new();
    g.move_down();
    g.next_tick();
    g.next_tick();
    assert_eq!(g.score, 1);
    // The fresh food also misses the new head cell (3, 3).
    assert!(!g.player_position.contains(&g.food));
    assert_ne!(g.food, Point(3, 3));
}
