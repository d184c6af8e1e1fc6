pub mod chess;
pub mod chess_game;
pub mod error;
pub mod events;
