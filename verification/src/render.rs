use vstd::prelude::*;

verus! {

use crate::game::{Game, GameView};
use crate::grid::{Pair, border_cell};

/// The display tag of one grid cell. The renderer maps each tag to a fixed
/// style: a terminal control sequence around a two-character-wide cell.
#[derive(Copy, Clone, Debug, PartialEq, Eq, Structural)]
pub enum Object {
    Border,
    Snake,
    Head,
    GameOverHead,
    Food,
    Empty,
}

/// The fixed style each display tag is drawn with.
pub open spec fn color_of(o: Object) -> Seq<char> {
    match o {
        Object::Border => "\x1b[47;1m  \x1b[0m"@,
        Object::Snake => "\x1b[47;1m  \x1b[0m"@,
        Object::Head => "\x1b[42;1m  \x1b[0m"@,
        Object::GameOverHead => "\x1b[41;1m  \x1b[0m"@,
        Object::Food => "\x1b[41;1m  \x1b[0m"@,
        Object::Empty => "\x1b[40m  \x1b[0m"@,
    }
}

impl Object {
    /// The fixed style this tag is drawn with: a colored two-character cell.
    pub fn color(&self) -> (s: String)
        ensures
            s@ == color_of(*self),
    {
        match self {
            Object::Border => String::from_str("\x1b[47;1m  \x1b[0m"),
            Object::Snake => String::from_str("\x1b[47;1m  \x1b[0m"),
            Object::Head => String::from_str("\x1b[42;1m  \x1b[0m"),
            Object::GameOverHead => String::from_str("\x1b[41;1m  \x1b[0m"),
            Object::Food => String::from_str("\x1b[41;1m  \x1b[0m"),
            Object::Empty => String::from_str("\x1b[40m  \x1b[0m"),
        }
    }
}

/// A snake segment covers the cell `(x, y)`.
pub open spec fn snake_at(snake: Seq<Pair>, x: int, y: int) -> bool {
    exists|i: int| 0 <= i < snake.len() && snake[i].x == x && snake[i].y == y
}

/// The display tag of cell `(x, y)`: the buffer is filled with empty cells,
/// then the border ring, then every snake segment, then the food cell, then
/// the head (drawn as the game-over head once the game has ended), each
/// later write overriding the earlier ones at the same cell.
pub open spec fn cell_tag(g: GameView, x: int, y: int) -> Object {
    let head = g.snake.last();
    if head.x == x && head.y == y {
        if g.game_over {
            Object::GameOverHead
        } else {
            Object::Head
        }
    } else if g.food.x == x && g.food.y == y {
        Object::Food
    } else if snake_at(g.snake, x, y) {
        Object::Snake
    } else if border_cell(g.grid, Pair { x: x as usize, y: y as usize }) {
        Object::Border
    } else {
        Object::Empty
    }
}

/// The characters of row `y`'s first `x` cells, each drawn in its style.
pub open spec fn row_chars(g: GameView, y: int, x: int) -> Seq<char>
    decreases x,
{
    if x <= 0 {
        Seq::empty()
    } else {
        row_chars(g, y, x - 1) + color_of(cell_tag(g, x - 1, y))
    }
}

/// The characters of the first `y` full rows, each ended by a newline.
pub open spec fn rows_chars(g: GameView, y: int) -> Seq<char>
    decreases y,
{
    if y <= 0 {
        Seq::empty()
    } else {
        rows_chars(g, y - 1) + row_chars(g, y - 1, g.grid.x as int) + "\n"@
    }
}

/// The whole frame: clear the screen, home and hide the cursor, draw every
/// row, and home the cursor again for the next frame.
pub open spec fn frame_chars(g: GameView) -> Seq<char> {
    "\x1b[2J\x1b[1;1H\x1b[?25l"@ + rows_chars(g, g.grid.y as int) + "\x1b[1;1H"@
}

/// `v` holds a segment covering the cell `(x, y)`.
fn covers_cell(v: &Vec<Pair>, x: usize, y: usize) -> (b: bool)
    ensures
        b == snake_at(v@, x as int, y as int),
{
    let mut i: usize = 0;
    while i < v.len()
        invariant
            i <= v@.len(),
            forall|j: int| 0 <= j < i ==> !(v@[j].x == x && v@[j].y == y),
        decreases v@.len() - i,
    {
        if v[i].x == x && v[i].y == y {
            return true;
        }
        i += 1;
    }
    false
}

impl Game {
    /// The display tag of cell `(x, y)` in this state.
    fn tag_at(&self, segments: &Vec<Pair>, x: usize, y: usize) -> (o: Object)
        requires
            segments@ == self@.snake,
            1 <= self@.snake.len(),
            3 <= self@.grid.x,
            3 <= self@.grid.y,
        ensures
            o == cell_tag(self@, x as int, y as int),
    {
        let head = self.head();
        let food = self.food_position();
        let grid = self.grid_size();
        if head.x == x && head.y == y {
            if self.is_over() {
                Object::GameOverHead
            } else {
                Object::Head
            }
        } else if food.x == x && food.y == y {
            Object::Food
        } else if covers_cell(segments, x, y) {
            Object::Snake
        } else if x == 0 || x == grid.x - 1 || y == 0 || y == grid.y - 1 {
            Object::Border
        } else {
            Object::Empty
        }
    }

    /// Serializes this state to one frame: a clear-screen sequence, a
    /// cursor-home sequence, a cursor-hide sequence, every row of cells in
    /// their styles each followed by a newline, and a final cursor-home
    /// sequence. The frame is a function of the state alone: rendering the
    /// same state twice gives byte-identical strings.
    pub fn render(&self) -> (frame: String)
        requires
            self.wf(),
        ensures
            frame@ == frame_chars(self@),
    {
        let segments = self.snake_segments();
        let grid = self.grid_size();
        let mut frame = String::from_str("\x1b[2J\x1b[1;1H\x1b[?25l");
        let ghost prefix = frame@;
        let mut y: usize = 0;
        while y < grid.y
            invariant
                self.wf(),
                segments@ == self@.snake,
                grid == self@.grid,
                y <= grid.y,
                frame@ == prefix + rows_chars(self@, y as int),
            decreases grid.y - y,
        {
            let mut x: usize = 0;
            while x < grid.x
                invariant
                    self.wf(),
                    segments@ == self@.snake,
                    grid == self@.grid,
                    y < grid.y,
                    x <= grid.x,
                    frame@ == prefix + rows_chars(self@, y as int)
                        + row_chars(self@, y as int, x as int),
                decreases grid.x - x,
            {
                let cell = self.tag_at(&segments, x, y).color();
                frame.append(cell.as_str());
                proof {
                    assert(frame@ == prefix + rows_chars(self@, y as int)
                        + row_chars(self@, y as int, x + 1)) by {
                        assert(row_chars(self@, y as int, x + 1)
                            == row_chars(self@, y as int, x as int)
                                + color_of(cell_tag(self@, x as int, y as int)));
                        assert((prefix + rows_chars(self@, y as int)
                            + row_chars(self@, y as int, x as int)) + cell@
                            =~= prefix + rows_chars(self@, y as int)
                                + row_chars(self@, y as int, x + 1));
                    }
                }
                x += 1;
            }
            frame.append("\n");
            proof {
                assert(frame@ == prefix + rows_chars(self@, y + 1)) by {
                    assert(rows_chars(self@, y + 1)
                        == rows_chars(self@, y as int)
                            + row_chars(self@, y as int, self@.grid.x as int) + "\n"@);
                    assert((prefix + rows_chars(self@, y as int)
                        + row_chars(self@, y as int, grid.x as int)) + "\n"@
                        =~= prefix + rows_chars(self@, y + 1));
                }
            }
            y += 1;
        }
        frame.append("\x1b[1;1H");
        proof {
            assert(frame@ =~= frame_chars(self@));
        }
        frame
    }

    /// A copy of the snake's segments, oldest first.
    pub fn snake_segments(&self) -> (v: Vec<Pair>)
        ensures
            v@ == self@.snake,
    {
        let mut v: Vec<Pair> = Vec::new();
        let mut i: usize = 0;
        while i < self.snake_len()
            invariant
                i <= self@.snake.len(),
                v@ == self@.snake.subrange(0, i as int),
            decreases self@.snake.len() - i,
        {
            let p = self.segment(i);
            v.push(p);
            proof {
                assert(v@ =~= self@.snake.subrange(0, i + 1));
            }
            i += 1;
        }
        proof {
            assert(v@ =~= self@.snake);
        }
        v
    }
}

/// Law: the frame is a function of the game state alone: equal states
/// render to byte-identical frames.
pub proof fn lemma_render_deterministic(a: GameView, b: GameView)
    requires
        a == b,
    ensures
        frame_chars(a) == frame_chars(b),
{
}

} // verus!
