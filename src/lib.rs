//! Utility constructs for 2D grids with integer coordinates: points, compass
//! directions, rectangles and rectangular containers, including a bit-packed
//! boolean grid.

pub mod direction;
pub mod grid;
pub mod point;
pub mod rect;

pub use direction::Direction;
pub use grid::BoolGrid;
pub use grid::Grid;
pub use grid::SimpleGrid;
pub use grid::SimpleValueGrid;
pub use grid::ValueGrid;
pub use point::Point;
pub use rect::Rect;
