//! Simulation core of a grid-based snake game: the grid of cells, the snake's
//! body, the food and the direction of travel, advanced one step per `tick`.

pub mod direction;
pub mod game;
pub mod grid;
pub mod pixel;
pub mod provider;

pub use direction::Direction;
pub use game::SnakeGame;
pub use pixel::Pixel;
pub use provider::SnakeProvider;
