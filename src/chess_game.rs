pub mod board_space;
pub mod old_piece_factory;
