use vstd::prelude::*;

use crate::chess::board::Piece;
use crate::error::Error;

verus! {

/// A colour as red, green, blue and alpha components.
#[derive(Debug, Clone, Copy, PartialEq, Eq)]
pub struct Color {
    pub r: u8,
    pub g: u8,
    pub b: u8,
    pub a: u8,
}

/// Number of columns and of rows of a drawn board.
pub const GRID_SIZE: u32 = 8;

/// A drawn cell of the board, addressed by column and row from 0, with the
/// pieces on it, its colour, and the flags that interaction writes.
pub struct BoardSpace {
    pub horz_position: u32,
    pub vert_position: u32,
    pub game_pieces: Vec<Piece>,
    pub hovered: bool,
    pub is_active: bool,
    pub available_to_move: bool,
    pub available_to_kill: bool,
    pub is_danger: bool,
    pub color: Color,
}

impl BoardSpace {
    pub fn new(horz: u32, vert: u32, color: Color) -> (r: Result<BoardSpace, Error>)
        ensures
            (horz < GRID_SIZE && vert < GRID_SIZE) <==> r is Ok,
            !(horz < GRID_SIZE && vert < GRID_SIZE) ==> r is Err && r->Err_0
                == Error::InvalidPosition,
            r matches Ok(s) ==> s.horz_position == horz && s.vert_position == vert && s.color
                == color && s.game_pieces@.len() == 0 && !s.hovered && s.is_active
                && !s.available_to_move && !s.available_to_kill && !s.is_danger,
    {
        if horz >= GRID_SIZE || vert >= GRID_SIZE {
            return Err(Error::InvalidPosition);
        }
        Ok(
            BoardSpace {
                horz_position: horz,
                vert_position: vert,
                game_pieces: Vec::new(),
                hovered: false,
                is_active: true,
                available_to_move: false,
                available_to_kill: false,
                is_danger: false,
                color,
            },
        )
    }

    pub fn reset_status(&mut self)
        ensures
            !final(self).available_to_move,
            !final(self).available_to_kill,
            !final(self).is_danger,
            final(self).horz_position == old(self).horz_position,
            final(self).vert_position == old(self).vert_position,
            final(self).game_pieces == old(self).game_pieces,
            final(self).hovered == old(self).hovered,
            final(self).is_active == old(self).is_active,
            final(self).color == old(self).color,
    {
        self.available_to_move = false;
        self.available_to_kill = false;
        self.is_danger = false;
    }
}

} // verus!
