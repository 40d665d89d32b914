use vstd::prelude::*;

pub mod game;
pub mod grid;
pub mod input;
pub mod render;

pub use game::Game;
pub use game::GameView;
pub use grid::Direction;
pub use grid::Pair;
pub use input::InputWindow;
pub use input::Key;

verus! {

} // verus!
