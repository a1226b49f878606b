//! A snake game on a toroidal grid: the snake moves one cell per tick in its
//! current direction, wraps at the borders, and grows by one cell when its head
//! reaches the food, which is then moved to a free cell.

pub mod food;
pub mod world;
