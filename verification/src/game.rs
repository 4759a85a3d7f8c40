//! The simulation state and its commands.
//!
//! `GameContext` is the aggregate the presentation layer drives: an ordered
//! snake body (head first), a travel direction, a food cell, a lifecycle
//! state and a score. Its mathematical model is `GameView`, and every
//! command's contract is stated over that view.

use vstd::prelude::*;

verus! {

/// Grid width: cells have x coordinates in `[0, GRID_X_SIZE)`.
pub const GRID_X_SIZE: i32 = 40;

/// Grid height: cells have y coordinates in `[0, GRID_Y_SIZE)`.
pub const GRID_Y_SIZE: i32 = 30;

/// A grid coordinate, `(x, y)`.
#[derive(Clone, Copy, Debug, PartialEq, Eq, Structural)]
pub struct Point(pub i32, pub i32);

/// The lifecycle state of a game.
#[derive(Clone, Copy, Debug, PartialEq, Eq, Structural)]
pub enum GameState {
    Playing,
    Paused,
    Over,
}

/// The direction the snake travels on the next tick.
#[derive(Clone, Copy, Debug, PartialEq, Eq, Structural)]
pub enum PlayerDirection {
    Up,
    Down,
    Right,
    Left,
}

/// The full game state: body (head first), direction, food, lifecycle
/// state and score.
pub struct GameContext {
    pub player_position: Vec<Point>,
    pub player_direction: PlayerDirection,
    pub food: Point,
    pub state: GameState,
    pub score: u32,
}

/// The mathematical model of a `GameContext`.
#[verifier::ext_equal]
pub ghost struct GameView {
    pub body: Seq<Point>,
    pub dir: PlayerDirection,
    pub food: Point,
    pub state: GameState,
    pub score: int,
}

impl View for GameContext {
    type V = GameView;

    open spec fn view(&self) -> GameView {
        GameView {
            body: self.player_position@,
            dir: self.player_direction,
            food: self.food,
            state: self.state,
            score: self.score as int,
        }
    }
}

/// Whether a coordinate lies on the grid.
pub open spec fn in_grid(p: Point) -> bool {
    &&& 0 <= p.0 < GRID_X_SIZE
    &&& 0 <= p.1 < GRID_Y_SIZE
}

/// Whether the body covers every cell of the grid. Once it does, no
/// free cell is left for food.
pub open spec fn grid_full(body: Seq<Point>) -> bool {
    forall|p: Point| in_grid(p) ==> body.contains(p)
}

/// The cell the head moves into: one step from `h` along `d`. The y
/// axis grows downward, so `Up` decreases y.
pub open spec fn spec_next_head(h: Point, d: PlayerDirection) -> Point {
    match d {
        PlayerDirection::Up => Point(h.0, (h.1 - 1) as i32),
        PlayerDirection::Down => Point(h.0, (h.1 + 1) as i32),
        PlayerDirection::Left => Point((h.0 - 1) as i32, h.1),
        PlayerDirection::Right => Point((h.0 + 1) as i32, h.1),
    }
}

impl GameView {
    /// The head of the snake: the first element of the body.
    pub open spec fn head(self) -> Point {
        self.body[0]
    }

    /// The cell the head moves into on the next tick.
    pub open spec fn next_head(self) -> Point {
        spec_next_head(self.head(), self.dir)
    }

    /// The well-formedness invariant of every reachable game state.
    ///
    /// The body is never empty. While the game is not over, every body
    /// cell lies on the grid, no two body cells coincide, the food lies
    /// on the grid off the body (as long as a free cell exists at all),
    /// and the score is at most the body length less the initial length
    /// of three.
    pub open spec fn inv(self) -> bool {
        &&& self.body.len() >= 1
        &&& self.state != GameState::Over ==> {
            &&& forall|i: int| 0 <= i < self.body.len() ==> in_grid(#[trigger] self.body[i])
            &&& self.body.no_duplicates()
            &&& !grid_full(self.body) ==> in_grid(self.food) && !self.body.contains(self.food)
            &&& self.score >= 0
            &&& self.score + 3 <= self.body.len()
        }
    }
}

/// The direction exactly opposite to `d`.
pub open spec fn opposite(d: PlayerDirection) -> PlayerDirection {
    match d {
        PlayerDirection::Up => PlayerDirection::Down,
        PlayerDirection::Down => PlayerDirection::Up,
        PlayerDirection::Right => PlayerDirection::Left,
        PlayerDirection::Left => PlayerDirection::Right,
    }
}

/// What a steering command does: the requested direction is taken unless
/// it is the exact opposite of the current one, which would reverse the
/// snake into its own neck.
pub open spec fn steer(cur: PlayerDirection, requested: PlayerDirection) -> PlayerDirection {
    if requested == opposite(cur) {
        cur
    } else {
        requested
    }
}

/// What `toggle_pause` does to the lifecycle state: `Playing` and
/// `Paused` swap; `Over` is absorbing.
pub open spec fn spec_toggle(s: GameState) -> GameState {
    match s {
        GameState::Playing => GameState::Paused,
        GameState::Paused => GameState::Playing,
        GameState::Over => GameState::Over,
    }
}

/// Whether the next tick from `v` eats the food: the game is in play
/// and the head is about to move onto the food cell.
pub open spec fn spec_eats(v: GameView) -> bool {
    v.state == GameState::Playing && v.next_head() == v.food
}

/// One simulation step on the model, exactly as `next_tick` performs
/// it. `new_food` stands for the freshly drawn food cell and is read
/// only on a tick that eats.
///
/// While the game is in play: the head advances one cell; unless it
/// eats, the tail cell is freed first, so moving onto the cell the tail
/// just left is not a collision. A step onto a remaining body cell ends
/// the game with the head not placed; a step off the grid places the
/// head but ends the game.
pub open spec fn spec_tick(v: GameView, new_food: Point) -> GameView {
    if v.state != GameState::Playing {
        v
    } else {
        let nh = v.next_head();
        let eats = nh == v.food;
        let trimmed = if eats {
            v.body
        } else {
            v.body.drop_last()
        };
        let score1 = if eats {
            v.score + 1
        } else {
            v.score
        };
        if trimmed.contains(nh) {
            GameView { body: trimmed, state: GameState::Over, score: score1, ..v }
        } else {
            GameView {
                body: seq![nh] + trimmed,
                dir: v.dir,
                food: if eats {
                    new_food
                } else {
                    v.food
                },
                state: if in_grid(nh) {
                    v.state
                } else {
                    GameState::Over
                },
                score: score1,
            }
        }
    }
}

/// The state every game starts from and returns to on restart: a
/// three-cell body heading right, food at `(3, 3)`, score zero.
pub open spec fn initial_view() -> GameView {
    GameView {
        body: seq![Point(3, 1), Point(2, 1), Point(1, 1)],
        dir: PlayerDirection::Right,
        food: Point(3, 3),
        state: GameState::Playing,
        score: 0,
    }
}

impl GameContext {
    /// Shorthand for the invariant on the context's view.
    pub open spec fn wf(self) -> bool {
        self@.inv()
    }

    /// Create a fresh game in its initial state.
    pub fn new() -> (r: GameContext)
        ensures
            r@ == initial_view(),
            r.wf(),
    {
        let r = GameContext {
            player_position: vec![Point(3, 1), Point(2, 1), Point(1, 1)],
            player_direction: PlayerDirection::Right,
            food: Point(3, 3),
            state: GameState::Playing,
            score: 0,
        };
        proof {
            assert(r@.body =~= initial_view().body);
            assert(r@ =~= initial_view());
            assert(r@.body.no_duplicates());
            assert(!r@.body.contains(r@.food)) by {
                assert(forall|i: int| 0 <= i < r@.body.len() ==> #[trigger] r@.body[i] != r@.food);
            }
        }
        r
    }
}

impl GameContext {
    /// Request travel upward; ignored when currently heading down.
    pub fn move_up(&mut self)
        ensures
            (final(self)@ == GameView {
                dir: steer(old(self)@.dir, PlayerDirection::Up),
                ..old(self)@
            }),
            old(self).wf() ==> final(self).wf(),
    {
        if let PlayerDirection::Down = self.player_direction {
            return ;
        }
        self.player_direction = PlayerDirection::Up;
    }

    /// Request travel downward; ignored when currently heading up.
    pub fn move_down(&mut self)
        ensures
            (final(self)@ == GameView {
                dir: steer(old(self)@.dir, PlayerDirection::Down),
                ..old(self)@
            }),
            old(self).wf() ==> final(self).wf(),
    {
        if let PlayerDirection::Up = self.player_direction {
            return ;
        }
        self.player_direction = PlayerDirection::Down;
    }

    /// Request travel rightward; ignored when currently heading left.
    pub fn move_right(&mut self)
        ensures
            (final(self)@ == GameView {
                dir: steer(old(self)@.dir, PlayerDirection::Right),
                ..old(self)@
            }),
            old(self).wf() ==> final(self).wf(),
    {
        if let PlayerDirection::Left = self.player_direction {
            return ;
        }
        self.player_direction = PlayerDirection::Right;
    }

    /// Request travel leftward; ignored when currently heading right.
    pub fn move_left(&mut self)
        ensures
            (final(self)@ == GameView {
                dir: steer(old(self)@.dir, PlayerDirection::Left),
                ..old(self)@
            }),
            old(self).wf() ==> final(self).wf(),
    {
        if let PlayerDirection::Right = self.player_direction {
            return ;
        }
        self.player_direction = PlayerDirection::Left;
    }

    /// Swap between `Playing` and `Paused`; a no-op once the game is over.
    pub fn toggle_pause(&mut self)
        ensures
            (final(self)@ == GameView { state: spec_toggle(old(self)@.state), ..old(self)@ }),
            old(self).wf() ==> final(self).wf(),
    {
        self.state = match self.state {
            GameState::Playing => GameState::Paused,
            GameState::Paused => GameState::Playing,
            GameState::Over => GameState::Over,
        };
    }

    /// Restart from the initial state, honored only once the game is over.
    pub fn new_game(&mut self)
        ensures
            old(self).state == GameState::Over ==> final(self)@ == initial_view(),
            old(self).state != GameState::Over ==> *final(self) == *old(self),
            old(self).wf() ==> final(self).wf(),
    {
        if let GameState::Over = self.state {
            *self = GameContext::new();
        }
    }
}

/// Whether the body holds the given point, by a linear scan.
fn body_holds(body: &Vec<Point>, p: Point) -> (r: bool)
    ensures
        r == body@.contains(p),
{
    let mut i: usize = 0;
    while i < body.len()
        invariant
            i <= body@.len(),
            forall|j: int| 0 <= j < i ==> body@[j] != p,
        decreases body@.len() - i,
    {
        if body[i].0 == p.0 && body[i].1 == p.1 {
            return true;
        }
        i += 1;
    }
    false
}

/// The grid point with the given flat cell index, and no other, decodes
/// to that index.
proof fn lemma_cell_decode(i: int, p: Point)
    requires
        0 <= i < GRID_X_SIZE * GRID_Y_SIZE,
        in_grid(p),
        p.1 * GRID_X_SIZE + p.0 == i,
    ensures
        p.0 == i % (GRID_X_SIZE as int),
        p.1 == i / (GRID_X_SIZE as int),
{
    vstd::arithmetic::div_mod::lemma_fundamental_div_mod_converse(
        i,
        GRID_X_SIZE as int,
        p.1 as int,
        p.0 as int,
    );
}

/// Pairwise distinct cells that all lie on the grid are at most as many
/// as the grid has cells.
pub proof fn lemma_body_fits_grid(body: Seq<Point>)
    requires
        body.no_duplicates(),
        forall|i: int| 0 <= i < body.len() ==> in_grid(#[trigger] body[i]),
    ensures
        body.len() <= GRID_X_SIZE * GRID_Y_SIZE,
{
    let f = |p: Point| p.1 * (GRID_X_SIZE as int) + p.0;
    let idx = body.map_values(f);
    assert forall|i: int, j: int|
        0 <= i < idx.len() && 0 <= j < idx.len() && i != j implies idx[i] != idx[j] by {
        if idx[i] == idx[j] {
            lemma_cell_decode(f(body[i]), body[i]);
            lemma_cell_decode(f(body[j]), body[j]);
            assert(body[i] == body[j]);
        }
    }
    assert(idx.no_duplicates());
    idx.unique_seq_to_set();
    let full = vstd::set_lib::set_int_range(0, GRID_X_SIZE * GRID_Y_SIZE);
    assert forall|x: int| idx.to_set().contains(x) implies full.contains(x) by {
        let k = choose|k: int| 0 <= k < idx.len() && idx[k] == x;
        assert(in_grid(body[k]));
    }
    vstd::set_lib::lemma_int_range(0, GRID_X_SIZE * GRID_Y_SIZE);
    vstd::set_lib::lemma_len_subset(idx.to_set(), full);
}

/// The first grid cell, in flat index order, that the body does not
/// cover; `None` exactly when the body covers the whole grid.
fn first_free_cell(body: &Vec<Point>) -> (r: Option<Point>)
    ensures
        (match r {
            Some(p) => in_grid(p) && !body@.contains(p),
            None => grid_full(body@),
        }),
{
    let mut i: i32 = 0;
    while i < GRID_X_SIZE * GRID_Y_SIZE
        invariant
            0 <= i <= GRID_X_SIZE * GRID_Y_SIZE,
            forall|p: Point|
                in_grid(p) && p.1 * GRID_X_SIZE + p.0 < i ==> body@.contains(p),
        decreases GRID_X_SIZE * GRID_Y_SIZE - i,
    {
        let cand = Point(i % GRID_X_SIZE, i / GRID_X_SIZE);
        if !body_holds(body, cand) {
            return Some(cand);
        }
        proof {
            assert forall|p: Point|
                in_grid(p) && p.1 * GRID_X_SIZE + p.0 < i + 1 implies body@.contains(p) by {
                if p.1 * GRID_X_SIZE + p.0 == i {
                    lemma_cell_decode(i as int, p);
                    assert(p == cand);
                }
            }
        }
        i += 1;
    }
    proof {
        assert forall|p: Point| in_grid(p) implies body@.contains(p) by {
            assert(p.1 * GRID_X_SIZE + p.0 < GRID_X_SIZE * GRID_Y_SIZE);
        }
    }
    None
}

/// Rejection sampling for a free cell: draw grid cells uniformly at
/// random; once the draws are spent, fall back to a deterministic scan,
/// which bounds the loop as a free cell need not turn up by chance.
fn pick_free_cell(body: &Vec<Point>) -> (r: Option<Point>)
    ensures
        (match r {
            Some(p) => in_grid(p) && !body@.contains(p),
            None => grid_full(body@),
        }),
{
    let mut tries: i32 = 0;
    while tries < GRID_X_SIZE * GRID_Y_SIZE
        invariant
            0 <= tries,
        decreases GRID_X_SIZE * GRID_Y_SIZE - tries,
    {
        let pos = crate::rng::random_below(GRID_X_SIZE * GRID_Y_SIZE);
        let cand = Point(pos % GRID_X_SIZE, pos / GRID_X_SIZE);
        if !body_holds(body, cand) {
            return Some(cand);
        }
        tries += 1;
    }
    first_free_cell(body)
}

/// One step from `h` along `d`.
fn next_head_position(h: Point, d: PlayerDirection) -> (r: Point)
    requires
        in_grid(h),
    ensures
        r == spec_next_head(h, d),
{
    match d {
        PlayerDirection::Up => Point(h.0, h.1 - 1),
        PlayerDirection::Down => Point(h.0, h.1 + 1),
        PlayerDirection::Left => Point(h.0 - 1, h.1),
        PlayerDirection::Right => Point(h.0 + 1, h.1),
    }
}

impl GameContext {
    /// Advance the simulation by one step while the game is in play; a
    /// no-op when paused or over. The head moves one cell along the
    /// current direction: onto the food it grows the body and scores,
    /// otherwise the tail is freed first; a step onto a remaining body
    /// cell or off the grid ends the game. The step is `spec_tick` on
    /// the view, with the freshly drawn food cell standing in for the
    /// draw.
    pub fn next_tick(&mut self)
        requires
            old(self).wf(),
        ensures
            final(self).wf(),
            (final(self)@ == spec_tick(old(self)@, final(self).food)),
            spec_eats(old(self)@) ==> ({
                let t = spec_tick(old(self)@, final(self).food);
                &&& !grid_full(t.body) ==> in_grid(final(self).food) && !t.body.contains(
                    final(self).food,
                )
                &&& grid_full(t.body) ==> final(self).food == old(self).food
            }),
    {
        match self.state {
            GameState::Paused => {
                return ;
            },
            GameState::Over => {
                return ;
            },
            GameState::Playing => {},
        }
        let ghost v0 = self@;
        proof {
            assert(in_grid(v0.body[0]));
        }
        let head = self.player_position[0];
        let nh = next_head_position(head, self.player_direction);
        if nh.0 < 0 || nh.0 >= GRID_X_SIZE || nh.1 < 0 || nh.1 >= GRID_Y_SIZE {
            self.state = GameState::Over;
        }
        let eats = nh.0 == self.food.0 && nh.1 == self.food.1;
        proof {
            assert(eats == spec_eats(v0));
        }
        if eats {
            proof {
                lemma_body_fits_grid(v0.body);
            }
            self.score = self.score + 1;
        } else {
            self.player_position.pop();
        }
        let ghost trimmed = self.player_position@;
        proof {
            assert(trimmed == (if spec_eats(v0) {
                v0.body
            } else {
                v0.body.drop_last()
            }));
        }
        if body_holds(&self.player_position, nh) {
            self.state = GameState::Over;
            proof {
                if eats && !grid_full(v0.body) {
                    // The food sat on the body: possible only once the
                    // body covers the whole grid.
                    assert(v0.body.contains(v0.food));
                    assert(false);
                }
                assert(self@ =~= spec_tick(v0, self.food));
            }
            return ;
        }
        self.player_position.insert(0, nh);
        proof {
            assert(self.player_position@ =~= seq![nh] + trimmed);
        }
        if eats {
            self.respawn_food();
        }
        proof {
            let t = spec_tick(v0, self.food);
            assert(self@ =~= t);
            let nb = self.player_position@;
            assert forall|i: int, j: int|
                0 <= i < nb.len() && 0 <= j < nb.len() && i != j implies nb[i] != nb[j] by {
                assert(v0.body.no_duplicates());
                if i > 0 && j > 0 {
                    assert(nb[i] == v0.body[i - 1] && nb[j] == v0.body[j - 1]);
                } else if i == 0 && j > 0 {
                    if nb[j] == nh {
                        assert(trimmed[j - 1] == nh);
                        assert(trimmed.contains(nh));
                    }
                } else if j == 0 && i > 0 {
                    if nb[i] == nh {
                        assert(trimmed[i - 1] == nh);
                        assert(trimmed.contains(nh));
                    }
                }
            }
            if self.state == GameState::Playing {
                assert(in_grid(nh));
                assert forall|i: int| 0 <= i < nb.len() implies in_grid(#[trigger] nb[i]) by {
                    if i > 0 {
                        assert(nb[i] == v0.body[i - 1]);
                        assert(in_grid(v0.body[i - 1]));
                    }
                }
                if !eats {
                    if !grid_full(v0.body) {
                        // The food kept its cell, which the new body
                        // still misses: the head cell is not the food
                        // and every other cell was already body.
                        assert forall|k: int| 0 <= k < nb.len() implies nb[k] != self.food by {
                            if k > 0 {
                                assert(v0.body.contains(v0.body[k - 1]));
                            }
                        }
                        assert(!nb.contains(self.food));
                    } else {
                        // The old body covered the grid and the head
                        // moved onto the cell the tail freed: the new
                        // body covers the grid as well.
                        assert(v0.body.contains(nh));
                        let m = choose|m: int| 0 <= m < v0.body.len() && v0.body[m] == nh;
                        if m < v0.body.len() - 1 {
                            assert(trimmed[m] == nh);
                            assert(trimmed.contains(nh));
                        }
                        assert(v0.body[v0.body.len() - 1] == nh);
                        assert forall|p: Point| in_grid(p) implies nb.contains(p) by {
                            assert(v0.body.contains(p));
                            let k = choose|k: int| 0 <= k < v0.body.len() && v0.body[k] == p;
                            if k == v0.body.len() - 1 {
                                assert(nb[0] == p);
                            } else {
                                assert(nb[k + 1] == p);
                            }
                        }
                    }
                }
            }
        }
    }
}

impl GameContext {
    /// Move the food to a grid cell the body does not cover, drawn at
    /// random; nothing else changes. When the body covers the whole
    /// grid no free cell exists and the context is left as it was.
    pub fn respawn_food(&mut self)
        ensures
            (final(self)@ == GameView { food: final(self).food, ..old(self)@ }),
            !grid_full(old(self).player_position@) ==> in_grid(final(self).food)
                && !old(self).player_position@.contains(final(self).food),
            grid_full(old(self).player_position@) ==> *final(self) == *old(self),
            old(self).wf() ==> final(self).wf(),
    {
        match pick_free_cell(&self.player_position) {
            Some(f) => {
                self.food = f;
            },
            None => {
            },
        }
    }
}

impl GameContext {
    /// Decide the invariant `wf` at runtime, for a caller outside the
    /// verified world that assembled a context by hand and owes `wf`
    /// to `next_tick`.
    pub fn is_well_formed(&self) -> (r: bool)
        ensures
            r == self.wf(),
    {
        let n = self.player_position.len();
        if n == 0 {
            return false;
        }
        if let GameState::Over = self.state {
            return true;
        }
        let mut i: usize = 0;
        while i < n
            invariant
                i <= n,
                n == self.player_position@.len(),
                n >= 1,
                self.state != GameState::Over,
                forall|k: int| 0 <= k < i ==> in_grid(#[trigger] self.player_position@[k]),
            decreases n - i,
        {
            let p = self.player_position[i];
            if p.0 < 0 || p.0 >= GRID_X_SIZE || p.1 < 0 || p.1 >= GRID_Y_SIZE {
                proof {
                    assert(!in_grid(self@.body[i as int]));
                }
                return false;
            }
            i += 1;
        }
        let mut a: usize = 0;
        while a < n
            invariant
                a <= n,
                n == self.player_position@.len(),
                n >= 1,
                self.state != GameState::Over,
                forall|x: int, y: int|
                    0 <= x < a && x < y < n ==> self.player_position@[x]
                        != self.player_position@[y],
            decreases n - a,
        {
            let mut b: usize = a + 1;
            while b < n
                invariant
                    a < b <= n,
                    a < n,
                    n == self.player_position@.len(),
                    self.state != GameState::Over,
                    forall|y: int|
                        a < y < b ==> self.player_position@[a as int] != self.player_position@[y],
                decreases n - b,
            {
                let pa = self.player_position[a];
                let pb = self.player_position[b];
                if pa.0 == pb.0 && pa.1 == pb.1 {
                    proof {
                        let bi = b as int;
                        assert(self@.body[a as int] == self@.body[bi]);
                        assert(!self@.body.no_duplicates());
                    }
                    return false;
                }
                b += 1;
            }
            a += 1;
        }
        proof {
            assert(self.player_position@.no_duplicates());
        }
        if self.score as u64 + 3 > n as u64 {
            return false;
        }
        match first_free_cell(&self.player_position) {
            None => true,
            Some(_) => {
                let f = self.food;
                if f.0 < 0 || f.0 >= GRID_X_SIZE || f.1 < 0 || f.1 >= GRID_Y_SIZE {
                    return false;
                }
                !body_holds(&self.player_position, f)
            },
        }
    }
}

impl Default for GameContext {
    /// Same as `GameContext::new`.
    fn default() -> (r: GameContext)
        ensures
            r@ == initial_view(),
            r.wf(),
    {
        GameContext::new()
    }
}

} // verus!
