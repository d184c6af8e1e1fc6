use vstd::prelude::*;

use crate::error::Error;

verus! {

/// Number of columns and of rows of the board.
pub const BOARD_SIZE: u32 = 8;

/// True for a column letter on the board: 'a' to 'h'.
pub open spec fn valid_column(c: char) -> bool {
    'a' <= c && c <= 'h'
}

/// True for a row number on the board: 1 to 8.
pub open spec fn valid_row(r: int) -> bool {
    1 <= r && r <= BOARD_SIZE
}

/// One cell of the board, with the flags that the legality engine writes.
#[derive(Debug, Clone, Copy)]
pub struct BoardSpace {
    pub horz_position: char,
    pub vert_position: i32,
    pub is_active: bool,
    pub available_to_move: bool,
    pub available_to_kill: bool,
    pub is_danger: bool,
}

impl BoardSpace {
    /// All three transient flags are false.
    pub open spec fn is_reset(&self) -> bool {
        !self.available_to_move && !self.available_to_kill && !self.is_danger
    }

    pub fn new(horz: char, vert: u32) -> (r: Result<BoardSpace, Error>)
        ensures
            (valid_column(horz) && valid_row(vert as int)) <==> r is Ok,
            !(valid_column(horz) && valid_row(vert as int)) ==> r == Err::<BoardSpace, Error>(
                Error::InvalidPosition,
            ),
            r matches Ok(s) ==> s.horz_position == horz && s.vert_position == vert as int
                && s.is_active && s.is_reset(),
    {
        if !('a' <= horz && horz <= 'h' && 1 <= vert && vert <= BOARD_SIZE) {
            return Err(Error::InvalidPosition);
        }
        Ok(
            BoardSpace {
                horz_position: horz,
                vert_position: vert as i32,
                is_active: true,
                available_to_move: false,
                available_to_kill: false,
                is_danger: false,
            },
        )
    }

    pub fn reset_status(&mut self)
        ensures
            final(self).is_reset(),
            final(self).horz_position == old(self).horz_position,
            final(self).vert_position == old(self).vert_position,
            final(self).is_active == old(self).is_active,
    {
        self.available_to_move = false;
        self.available_to_kill = false;
        self.is_danger = false;
    }
}

} // verus!
