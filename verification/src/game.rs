use vstd::prelude::*;
use rand::RngExt;

verus! {

use crate::grid::{Pair, Direction, in_interior, border_cell, step_of, dir_from_index};
use crate::input::Key;

/// Self-collision is only checked against segments further than this many
/// places from the head: the nearest ones can never overlap a just-moved head.
/// A snake no longer than this can therefore never collide with itself.
pub const SELF_SKIP: usize = 4;

/// The whole game state, as mathematical values: the snake's segments oldest
/// first (the last one is the head), the current heading, the food cell, the
/// grid size, and whether the game has ended.
pub struct GameView {
    pub snake: Seq<Pair>,
    pub dir: Direction,
    pub food: Pair,
    pub grid: Pair,
    pub game_over: bool,
}

impl GameView {
    /// Well-formedness of a game state: the grid leaves room for a border
    /// and an interior, the snake is never empty, the food is strictly
    /// inside the border, and, as long as the game is not over, so is every
    /// snake segment.
    pub open spec fn wf(self) -> bool {
        &&& 3 <= self.grid.x
        &&& 3 <= self.grid.y
        &&& 1 <= self.snake.len()
        &&& in_interior(self.grid, self.food)
        &&& !self.game_over ==> forall|i: int|
            0 <= i < self.snake.len() ==> in_interior(self.grid, #[trigger] self.snake[i])
    }
}

/// The cell the head moves onto this tick.
pub open spec fn stepped_head(g: GameView) -> Pair {
    step_of(g.snake.last(), g.dir)
}

/// The head moves onto the food this tick, so the snake grows.
pub open spec fn eats(g: GameView) -> bool {
    stepped_head(g) == g.food
}

/// The snake's segments after this tick's tail decision and before the new
/// head is appended: on growth the tail is kept, otherwise the oldest
/// segment is dropped.
pub open spec fn body_after_tail(g: GameView) -> Seq<Pair> {
    if eats(g) {
        g.snake
    } else {
        g.snake.drop_first()
    }
}

/// The stepped head lands on the border ring.
pub open spec fn wall_hit(g: GameView) -> bool {
    border_cell(g.grid, stepped_head(g))
}

/// The stepped head lands on a snake segment. Only segments further than
/// `SELF_SKIP` places from the head count, and only once the snake (after
/// the tail decision) is longer than `SELF_SKIP`.
pub open spec fn self_hit(g: GameView) -> bool {
    let b = body_after_tail(g);
    &&& b.len() > SELF_SKIP
    &&& exists|i: int| 0 <= i < b.len() - SELF_SKIP && b[i] == stepped_head(g)
}

/// The heading after one direction-change request: the request is ignored
/// exactly when it is the opposite of the current heading.
pub open spec fn dir_after_request(cur: Direction, requested: Direction) -> Direction {
    if requested == cur.opp() {
        cur
    } else {
        requested
    }
}

/// Some cell strictly inside the border is not covered by `occupied`:
/// food can be respawned.
pub open spec fn has_free_cell(grid: Pair, occupied: Seq<Pair>) -> bool {
    exists|p: Pair| in_interior(grid, p) && !occupied.contains(p)
}

/// The full per-tick transition: how the state after `next_iter` relates to
/// the state before it. The head steps one cell in the current heading and
/// is appended; the tail is kept exactly when the food was eaten; eating
/// respawns the food on a free interior cell when one exists, and otherwise
/// (the board is full) ends the game; hitting the border ring or a
/// far-enough own segment ends the game.
pub open spec fn tick_rel(pre: GameView, post: GameView) -> bool {
    &&& post.grid == pre.grid
    &&& post.dir == pre.dir
    &&& post.snake == body_after_tail(pre).push(stepped_head(pre))
    &&& if eats(pre) {
        if has_free_cell(pre.grid, pre.snake) {
            &&& in_interior(pre.grid, post.food)
            &&& !pre.snake.contains(post.food)
            &&& post.game_over == (wall_hit(pre) || self_hit(pre))
        } else {
            &&& post.food == pre.food
            &&& post.game_over
        }
    } else {
        &&& post.food == pre.food
        &&& post.game_over == (wall_hit(pre) || self_hit(pre))
    }
}

/// The game engine: owns the snake, the current heading, the food, the grid
/// size and the game-over flag, and is mutated once per tick.
pub struct Game {
    snake: Vec<Pair>,
    dir: Direction,
    food: Pair,
    grid: Pair,
    game_over: bool,
}

impl View for Game {
    type V = GameView;

    closed spec fn view(&self) -> GameView {
        GameView {
            snake: self.snake@,
            dir: self.dir,
            food: self.food,
            grid: self.grid,
            game_over: self.game_over,
        }
    }
}

/// Relies on rand: `random_range` on `0..n` returns a uniformly distributed
/// value of that range, and panics only when the range is empty.
#[verifier::external_body]
fn random_below(n: usize) -> (r: usize)
    requires
        0 < n,
    ensures
        r < n,
{
    rand::rng().random_range(0..n)
}

/// `v` holds the cell `p`.
fn contains_pair(v: &Vec<Pair>, p: Pair) -> (b: bool)
    ensures
        b == v@.contains(p),
{
    let mut i: usize = 0;
    while i < v.len()
        invariant
            i <= v@.len(),
            forall|j: int| 0 <= j < i ==> v@[j] != p,
        decreases v@.len() - i,
    {
        if v[i] == p {
            return true;
        }
        i += 1;
    }
    false
}

impl Game {
    /// Well-formedness of the engine's state; established by the
    /// constructors and preserved by every mutation.
    pub open spec fn wf(self) -> bool {
        self@.wf()
    }

    /// Creates a game on the given grid: a single-segment snake at the grid
    /// center, a uniformly random initial heading, and food on a free
    /// interior cell. The grid must leave room for at least two interior
    /// cells, one for the snake and one for the food.
    pub fn new(grid: Pair) -> (g: Game)
        requires
            3 <= grid.x,
            3 <= grid.y,
            7 <= grid.x + grid.y,
        ensures
            g.wf(),
            g@.grid == grid,
            g@.snake == seq![Pair { x: (grid.x / 2) as usize, y: (grid.y / 2) as usize }],
            !g@.game_over,
            in_interior(grid, g@.food),
            g@.food != (Pair { x: (grid.x / 2) as usize, y: (grid.y / 2) as usize }),
    {
        let center = Pair { x: grid.x / 2, y: grid.y / 2 };
        let mut snake: Vec<Pair> = Vec::new();
        snake.push(center);
        let dir = dir_from_index(random_below(4));
        let mut g = Game { snake, dir, food: Pair { x: 1, y: 1 }, grid, game_over: false };
        proof {
            assert(g@.snake =~= seq![center]);
            // Some interior cell is free: the single segment sits at the
            // center, which cannot be (1, 1) on a grid this large, so
            // (1, 1) itself is free.
            assert(center.x >= 2 || center.y >= 2);
            assert(in_interior(grid, Pair { x: 1, y: 1 }));
            assert(!g@.snake.contains(Pair { x: 1, y: 1 }));
            assert(has_free_cell(grid, g@.snake));
        }
        let ok = g.next_food();
        proof {
            assert(ok);
            assert(g@.snake.contains(center)) by {
                assert(g@.snake[0] == center);
            }
        }
        g
    }

    /// Builds a game from explicit parts, for callers that need a known
    /// starting state; returns it exactly when the parts form a well-formed
    /// state.
    pub fn from_parts(grid: Pair, snake: Vec<Pair>, dir: Direction, food: Pair, game_over: bool)
        -> (r: Option<Game>)
        ensures
            ({
                let v = GameView { snake: snake@, dir, food, grid, game_over };
                match r {
                    Some(g) => g@ == v && v.wf(),
                    None => !v.wf(),
                }
            }),
    {
        if grid.x < 3 || grid.y < 3 || snake.len() < 1 {
            return None;
        }
        if !(1 <= food.x && food.x <= grid.x - 2 && 1 <= food.y && food.y <= grid.y - 2) {
            return None;
        }
        if !game_over {
            let mut i: usize = 0;
            while i < snake.len()
                invariant
                    !game_over,
                    3 <= grid.x,
                    3 <= grid.y,
                    i <= snake@.len(),
                    forall|j: int| 0 <= j < i ==> in_interior(grid, #[trigger] snake@[j]),
                decreases snake@.len() - i,
            {
                let p = snake[i];
                if !(1 <= p.x && p.x <= grid.x - 2 && 1 <= p.y && p.y <= grid.y - 2) {
                    proof {
                        assert(snake@[i as int] == p);
                        assert(!in_interior(grid, p));
                    }
                    return None;
                }
                i += 1;
            }
        }
        Some(Game { snake, dir, food, grid, game_over })
    }

    /// Relocates the food to a cell chosen uniformly at random among the
    /// interior cells that no snake segment covers. Returns whether such a
    /// cell existed; when none does, the food is left where it was.
    pub fn next_food(&mut self) -> (ok: bool)
        requires
            old(self).wf(),
        ensures
            final(self)@.snake == old(self)@.snake,
            final(self)@.dir == old(self)@.dir,
            final(self)@.grid == old(self)@.grid,
            final(self)@.game_over == old(self)@.game_over,
            ok == has_free_cell(old(self)@.grid, old(self)@.snake),
            ok ==> in_interior(final(self)@.grid, final(self)@.food)
                && !final(self)@.snake.contains(final(self)@.food),
            !ok ==> final(self)@.food == old(self)@.food,
            final(self).wf(),
    {
        let gx = self.grid.x;
        let gy = self.grid.y;
        let mut vars: Vec<Pair> = Vec::new();
        let mut y: usize = 1;
        while y < gy - 1
            invariant
                self == old(self),
                gx == self.grid.x,
                gy == self.grid.y,
                3 <= gx,
                3 <= gy,
                1 <= y <= gy - 1,
                forall|j: int| 0 <= j < vars@.len()
                    ==> in_interior(self.grid, #[trigger] vars@[j])
                        && !self.snake@.contains(vars@[j]),
                forall|p: Pair|
                    in_interior(self.grid, p) && p.y < y && !self.snake@.contains(p)
                        ==> vars@.contains(p),
            decreases gy - y,
        {
            let mut x: usize = 1;
            while x < gx - 1
                invariant
                    self == old(self),
                    gx == self.grid.x,
                    gy == self.grid.y,
                    3 <= gx,
                    3 <= gy,
                    1 <= y <= gy - 2,
                    1 <= x <= gx - 1,
                    forall|j: int| 0 <= j < vars@.len()
                        ==> in_interior(self.grid, #[trigger] vars@[j])
                            && !self.snake@.contains(vars@[j]),
                    forall|p: Pair|
                        in_interior(self.grid, p) && !self.snake@.contains(p)
                            && (p.y < y || (p.y == y && p.x < x))
                            ==> vars@.contains(p),
                decreases gx - x,
            {
                let p = Pair { x, y };
                let ghost vars0 = vars@;
                if !contains_pair(&self.snake, p) {
                    vars.push(p);
                }
                proof {
                    assert forall|q: Pair|
                        in_interior(self.grid, q) && !self.snake@.contains(q)
                            && (q.y < y || (q.y == y && q.x < x + 1))
                            implies vars@.contains(q) by {
                        if q.y == y && q.x == x {
                            assert(q == p);
                            assert(vars@ == vars0.push(p));
                            assert(vars@[vars@.len() - 1] == q);
                        } else {
                            assert(vars0.contains(q));
                            let w = choose|j: int| 0 <= j < vars0.len() && vars0[j] == q;
                            assert(vars@[w] == q);
                        }
                    }
                }
                x += 1;
            }
            y += 1;
        }
        if vars.len() == 0 {
            proof {
                assert forall|p: Pair|
                    !(in_interior(self.grid, p) && !self.snake@.contains(p)) by {
                    if in_interior(self.grid, p) && !self.snake@.contains(p) {
                        assert(p.y < gy - 1);
                        assert(vars@.contains(p));
                    }
                }
                assert(!has_free_cell(self@.grid, self@.snake));
            }
            return false;
        }
        let i = random_below(vars.len());
        self.food = vars[i];
        proof {
            assert(in_interior(self.grid, vars@[i as int]));
            assert(has_free_cell(old(self)@.grid, old(self)@.snake)) by {
                assert(in_interior(self.grid, vars@[i as int])
                    && !self.snake@.contains(vars@[i as int]));
            }
        }
        true
    }

    /// Replaces the current heading with `requested`, unless `requested` is
    /// the exact opposite of the current heading: a snake may never reverse
    /// into itself in one tick, so a reversal request is silently ignored.
    /// Repeating the same request leaves the state as one request does.
    pub fn change_dir(&mut self, requested: Direction)
        ensures
            final(self)@.snake == old(self)@.snake,
            final(self)@.food == old(self)@.food,
            final(self)@.grid == old(self)@.grid,
            final(self)@.game_over == old(self)@.game_over,
            final(self)@.dir == dir_after_request(old(self)@.dir, requested),
    {
        if requested != self.dir.opposite() {
            self.dir = requested;
        }
    }

    /// Applies one tick's resolved key: a turn key requests the heading a
    /// quarter turn from the current one (never a reversal, so it is always
    /// accepted), and any other key requests no change.
    pub fn apply_key(&mut self, key: Key)
        ensures
            final(self)@.snake == old(self)@.snake,
            final(self)@.food == old(self)@.food,
            final(self)@.grid == old(self)@.grid,
            final(self)@.game_over == old(self)@.game_over,
            final(self)@.dir == match key {
                Key::TurnLeft => old(self)@.dir.ccw(),
                Key::TurnRight => old(self)@.dir.cw(),
                _ => old(self)@.dir,
            },
    {
        match key {
            Key::TurnLeft => {
                let d = self.dir.counter_clockwise();
                self.change_dir(d);
            }
            Key::TurnRight => {
                let d = self.dir.clockwise();
                self.change_dir(d);
            }
            _ => {}
        }
    }

    /// The per-tick transition, in this order: step the head one cell in the
    /// current heading; keep the tail and respawn the food if the head landed
    /// on the food, else drop the oldest segment; end the game on a border
    /// cell or on a far-enough own segment; append the stepped head in every
    /// case, so that a fatal head position can still be drawn.
    pub fn next_iter(&mut self)
        requires
            old(self).wf(),
            !old(self)@.game_over,
        ensures
            tick_rel(old(self)@, final(self)@),
            final(self).wf(),
    {
        let len = self.snake.len();
        let mut head = self.snake[len - 1];
        proof {
            assert(head == old(self)@.snake.last());
            assert(in_interior(self@.grid, head));
        }
        match self.dir {
            Direction::Up => head.y = head.y - 1,
            Direction::Right => head.x = head.x + 1,
            Direction::Down => head.y = head.y + 1,
            Direction::Left => head.x = head.x - 1,
        }
        proof {
            assert(head == stepped_head(old(self)@));
        }
        if head == self.food {
            let ok = self.next_food();
            if !ok {
                self.game_over = true;
            }
        } else {
            self.snake.remove(0);
            proof {
                assert(self@.snake =~= old(self)@.snake.drop_first());
            }
        }
        proof {
            assert(self@.snake == body_after_tail(old(self)@));
        }
        if head.x == 0 || head.x == self.grid.x - 1 || head.y == 0 || head.y == self.grid.y - 1 {
            self.game_over = true;
        }
        let ghost mid = self@;
        if self.snake.len() > SELF_SKIP {
            let m = self.snake.len() - SELF_SKIP;
            let mut i: usize = 0;
            let mut hit = false;
            while i < m
                invariant
                    self@ == mid,
                    i <= m,
                    m + SELF_SKIP == mid.snake.len(),
                    hit == exists|j: int| 0 <= j < i && mid.snake[j] == head,
                decreases m - i,
            {
                if self.snake[i] == head {
                    hit = true;
                    proof {
                        assert(mid.snake[i as int] == head);
                    }
                }
                i += 1;
            }
            if hit {
                self.game_over = true;
            }
        }
        self.snake.push(head);
        proof {
            assert(self@.snake == mid.snake.push(head));
            assert(tick_rel(old(self)@, self@));
            if !self@.game_over {
                lemma_segments_interior(old(self)@, self@);
            }
        }
    }

    /// Whether the game has ended; a query with no side effects.
    pub fn is_over(&self) -> (r: bool)
        ensures
            r == self@.game_over,
    {
        self.game_over
    }

    /// The number of snake segments.
    pub fn snake_len(&self) -> (n: usize)
        ensures
            n == self@.snake.len(),
    {
        self.snake.len()
    }

    /// The `i`-th snake segment, oldest first.
    pub fn segment(&self, i: usize) -> (p: Pair)
        requires
            i < self@.snake.len(),
        ensures
            p == self@.snake[i as int],
    {
        self.snake[i]
    }

    /// The snake's head: its most recently added segment.
    pub fn head(&self) -> (p: Pair)
        requires
            1 <= self@.snake.len(),
        ensures
            p == self@.snake.last(),
    {
        self.snake[self.snake.len() - 1]
    }

    /// The current food cell.
    pub fn food_position(&self) -> (p: Pair)
        ensures
            p == self@.food,
    {
        self.food
    }

    /// The grid size.
    pub fn grid_size(&self) -> (p: Pair)
        ensures
            p == self@.grid,
    {
        self.grid
    }

    /// The current heading.
    pub fn direction(&self) -> (d: Direction)
        ensures
            d == self@.dir,
    {
        self.dir
    }
}

/// Law: one tick never shrinks the snake. Its length grows by exactly one
/// when the head steps onto the food and is unchanged otherwise.
pub proof fn lemma_tick_length(pre: GameView, post: GameView)
    requires
        1 <= pre.snake.len(),
        tick_rel(pre, post),
    ensures
        post.snake.len() == if eats(pre) {
            pre.snake.len() + 1
        } else {
            pre.snake.len()
        },
{
}

/// Law: a tick that leaves the game running leaves every snake segment
/// strictly inside the border ring.
pub proof fn lemma_segments_interior(pre: GameView, post: GameView)
    requires
        pre.wf(),
        !pre.game_over,
        tick_rel(pre, post),
        !post.game_over,
    ensures
        forall|i: int| 0 <= i < post.snake.len()
            ==> in_interior(post.grid, #[trigger] post.snake[i]),
{
    let nh = stepped_head(pre);
    assert(in_interior(pre.grid, pre.snake.last()));
    assert(!border_cell(pre.grid, nh));
    assert(in_interior(pre.grid, nh));
    assert forall|i: int| 0 <= i < post.snake.len()
        implies in_interior(post.grid, #[trigger] post.snake[i]) by {
        if i < post.snake.len() - 1 {
            if eats(pre) {
                assert(post.snake[i] == pre.snake[i]);
            } else {
                assert(post.snake[i] == pre.snake[i + 1]);
            }
        } else {
            assert(post.snake[i] == nh);
        }
    }
}

/// Law: food placed by a successful respawn lies strictly inside the border
/// ring and on no cell the snake covered when it was placed.
pub proof fn lemma_respawned_food(pre: GameView, post: GameView)
    requires
        tick_rel(pre, post),
        eats(pre),
        has_free_cell(pre.grid, pre.snake),
    ensures
        in_interior(post.grid, post.food),
        !pre.snake.contains(post.food),
{
}

/// Law: a reversal request leaves the heading unchanged, and repeating any
/// one request leaves the heading where the first of the two requests put it.
pub proof fn lemma_change_dir_reversal_and_idempotence(cur: Direction, requested: Direction)
    ensures
        requested == cur.opp() ==> dir_after_request(cur, requested) == cur,
        dir_after_request(dir_after_request(cur, requested), requested)
            == dir_after_request(cur, requested),
{
}

/// Law: a snake of length at most `SELF_SKIP` never triggers the
/// self-collision rule; if its tick ends the game, the cause was the border
/// ring, or eating the food with no free interior cell left to respawn it on.
pub proof fn lemma_short_snake_no_self_hit(pre: GameView, post: GameView)
    requires
        1 <= pre.snake.len() <= SELF_SKIP,
        tick_rel(pre, post),
    ensures
        !self_hit(pre),
        post.game_over ==> wall_hit(pre)
            || (eats(pre) && !has_free_cell(pre.grid, pre.snake)),
{
}

} // verus!
