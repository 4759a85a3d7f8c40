//! Properties of the simulation, proved once and for all.
//!
//! Each law is stated over the model: `spec_tick` for the tick, `steer`
//! for the steering commands, `spec_toggle` for pausing. The contracts
//! of the executable commands tie their behaviour to these functions,
//! so each law carries over to the running code.

use vstd::prelude::*;
use crate::game::{
    GameState, GameView, PlayerDirection, Point, grid_full, in_grid, opposite, spec_tick,
    spec_toggle, steer,
};

verus! {

/// Movement without growth: while the game is in play, a tick that
/// neither eats nor collides keeps the body length and the score, puts
/// the head one cell along the current direction, and frees exactly
/// the old tail cell.
pub proof fn lemma_movement_without_growth(v: GameView, nf: Point)
    requires
        v.inv(),
        v.state == GameState::Playing,
        v.body.len() >= 2,
        v.next_head() != v.food,
        !v.body.drop_last().contains(v.next_head()),
    ensures
        spec_tick(v, nf).body.len() == v.body.len(),
        spec_tick(v, nf).body[0] == v.next_head(),
        spec_tick(v, nf).body == seq![v.next_head()] + v.body.drop_last(),
        spec_tick(v, nf).score == v.score,
{
}

/// Growth on food: a tick whose next head cell holds the food raises
/// the score by exactly one and the body length by exactly one, keeps
/// the game in play, and moves the food to the fresh cell. That the
/// fresh cell misses the whole new body is the last clause of
/// `next_tick`'s contract, established by `respawn_food`.
pub proof fn lemma_growth_on_food(v: GameView, nf: Point)
    requires
        v.inv(),
        v.state == GameState::Playing,
        !grid_full(v.body),
        v.next_head() == v.food,
    ensures
        spec_tick(v, nf).score == v.score + 1,
        spec_tick(v, nf).body.len() == v.body.len() + 1,
        spec_tick(v, nf).body == seq![v.next_head()] + v.body,
        spec_tick(v, nf).state == GameState::Playing,
        spec_tick(v, nf).food == nf,
{
}

/// Reversal rejected: a steering request for the exact opposite of the
/// current direction is ignored; any other request is taken.
pub proof fn lemma_reversal_rejected(cur: PlayerDirection, requested: PlayerDirection)
    ensures
        steer(cur, opposite(cur)) == cur,
        requested != opposite(cur) ==> steer(cur, requested) == requested,
{
}

/// Boundary death: a tick whose next head cell lies off the grid ends
/// the game.
pub proof fn lemma_boundary_death(v: GameView, nf: Point)
    requires
        v.inv(),
        v.state == GameState::Playing,
        !in_grid(v.next_head()),
    ensures
        spec_tick(v, nf).state == GameState::Over,
{
}

/// Tail-vacancy is not self-collision: a tick that moves the head onto
/// the very cell its own tail is freeing, without eating, keeps the
/// game in play and the body length.
pub proof fn lemma_tail_vacancy_is_not_collision(v: GameView, nf: Point)
    requires
        v.inv(),
        v.state == GameState::Playing,
        v.body.len() >= 2,
        v.next_head() == v.body.last(),
        v.next_head() != v.food,
    ensures
        spec_tick(v, nf).state == GameState::Playing,
        spec_tick(v, nf).body.len() == v.body.len(),
{
    let nh = v.next_head();
    assert(!v.body.drop_last().contains(nh)) by {
        if v.body.drop_last().contains(nh) {
            let i = choose|i: int|
                0 <= i < v.body.drop_last().len() && v.body.drop_last()[i] == nh;
            assert(v.body[i] == v.body[v.body.len() - 1]);
            assert(false);
        }
    }
    assert(in_grid(nh)) by {
        assert(in_grid(v.body[v.body.len() - 1]));
    }
}

/// Pause idempotence: toggling pause twice returns every state to
/// itself, and toggling from `Over` changes nothing.
pub proof fn lemma_toggle_pause_round_trip(s: GameState)
    ensures
        spec_toggle(spec_toggle(s)) == s,
        s == GameState::Over ==> spec_toggle(s) == s,
{
}

} // verus!
