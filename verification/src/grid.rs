use vstd::prelude::*;

verus! {

/// A grid cell, or a grid size, as a pair of non-negative integer coordinates.
#[derive(Copy, Clone, Debug, PartialEq, Eq, Structural)]
pub struct Pair {
    pub x: usize,
    pub y: usize,
}

/// One of the four cardinal headings. A snake is always heading somewhere:
/// there is no neutral value.
#[derive(Copy, Clone, Debug, PartialEq, Eq, Structural)]
pub enum Direction {
    Up,
    Left,
    Right,
    Down,
}

impl Direction {
    /// The heading exactly opposite to this one.
    pub open spec fn opp(self) -> Direction {
        match self {
            Direction::Up => Direction::Down,
            Direction::Left => Direction::Right,
            Direction::Right => Direction::Left,
            Direction::Down => Direction::Up,
        }
    }

    /// The heading a quarter turn clockwise from this one
    /// (with the origin in the top-left corner and `y` growing downwards).
    pub open spec fn cw(self) -> Direction {
        match self {
            Direction::Up => Direction::Right,
            Direction::Right => Direction::Down,
            Direction::Down => Direction::Left,
            Direction::Left => Direction::Up,
        }
    }

    /// The heading a quarter turn counter-clockwise from this one.
    pub open spec fn ccw(self) -> Direction {
        match self {
            Direction::Up => Direction::Left,
            Direction::Left => Direction::Down,
            Direction::Down => Direction::Right,
            Direction::Right => Direction::Up,
        }
    }

    /// The heading exactly opposite to this one.
    #[verifier::when_used_as_spec(opp)]
    pub fn opposite(self) -> (r: Direction)
        ensures
            r == self.opp(),
    {
        match self {
            Direction::Up => Direction::Down,
            Direction::Left => Direction::Right,
            Direction::Right => Direction::Left,
            Direction::Down => Direction::Up,
        }
    }

    /// The heading a quarter turn clockwise from this one.
    #[verifier::when_used_as_spec(cw)]
    pub fn clockwise(self) -> (r: Direction)
        ensures
            r == self.cw(),
    {
        match self {
            Direction::Up => Direction::Right,
            Direction::Right => Direction::Down,
            Direction::Down => Direction::Left,
            Direction::Left => Direction::Up,
        }
    }

    /// The heading a quarter turn counter-clockwise from this one.
    #[verifier::when_used_as_spec(ccw)]
    pub fn counter_clockwise(self) -> (r: Direction)
        ensures
            r == self.ccw(),
    {
        match self {
            Direction::Up => Direction::Left,
            Direction::Left => Direction::Down,
            Direction::Down => Direction::Right,
            Direction::Right => Direction::Up,
        }
    }
}

/// The heading that a uniform draw of `i` from `0..4` stands for.
pub open spec fn index_dir(i: int) -> Direction {
    if i == 0 {
        Direction::Up
    } else if i == 1 {
        Direction::Left
    } else if i == 2 {
        Direction::Right
    } else {
        Direction::Down
    }
}

/// Maps a uniform draw from `0..4` to a heading, one index per heading.
pub fn dir_from_index(i: usize) -> (d: Direction)
    requires
        i < 4,
    ensures
        d == index_dir(i as int),
{
    if i == 0 {
        Direction::Up
    } else if i == 1 {
        Direction::Left
    } else if i == 2 {
        Direction::Right
    } else {
        Direction::Down
    }
}

/// The cell one step from `p` in heading `d`.
/// Meaningful when `p` is strictly inside a grid, so that no coordinate
/// wraps: the casts are then the identity.
pub open spec fn step_of(p: Pair, d: Direction) -> Pair {
    match d {
        Direction::Up => Pair { x: p.x, y: (p.y - 1) as usize },
        Direction::Right => Pair { x: (p.x + 1) as usize, y: p.y },
        Direction::Down => Pair { x: p.x, y: (p.y + 1) as usize },
        Direction::Left => Pair { x: (p.x - 1) as usize, y: p.y },
    }
}

/// `p` lies strictly inside the border ring of a `grid.x` by `grid.y` grid.
pub open spec fn in_interior(grid: Pair, p: Pair) -> bool {
    &&& 1 <= p.x <= grid.x - 2
    &&& 1 <= p.y <= grid.y - 2
}

/// `p` lies on the border ring: the outermost row or column of the grid.
pub open spec fn border_cell(grid: Pair, p: Pair) -> bool {
    ||| p.x == 0
    ||| p.x == grid.x - 1
    ||| p.y == 0
    ||| p.y == grid.y - 1
}

/// Decides whether a console of `w` columns by `h` rows is large enough to
/// play on, against the given minima, and if so which grid to use: each game
/// cell is two characters wide, and one console row is kept below the board.
pub fn console_grid(w: u16, h: u16, min_x: u16, min_y: u16) -> (r: Option<Pair>)
    requires
        3 <= min_x,
        4 <= min_y,
    ensures
        r is Some <==> (w > 2 * min_x && h > min_y),
        r is Some ==> r->Some_0 == (Pair { x: (w / 2) as usize, y: (h - 1) as usize }),
        r is Some ==> 3 <= r->Some_0.x && 4 <= r->Some_0.y,
{
    if (w as usize) > 2 * (min_x as usize) && h > min_y {
        Some(Pair { x: (w / 2) as usize, y: (h - 1) as usize })
    } else {
        None
    }
}

} // verus!
