pub mod board;
pub mod board_space;
pub mod loader;
pub mod movement;
pub mod text;
pub mod laws;
