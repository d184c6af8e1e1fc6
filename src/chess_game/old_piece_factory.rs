use vstd::prelude::*;

use crate::chess::board::Piece;
use crate::chess::loader::{lines_view, load_definition, load_spec, PieceDefinition};
use crate::error::Error;
use std::rc::Rc;

verus! {

/// `s` with a final `.txt` replaced by `.png`; `s` itself where it does not end so.
pub open spec fn png_for_txt(s: Seq<char>) -> Seq<char> {
    if s.len() >= 4 && s.subrange(s.len() - 4, s.len() as int) == seq!['.', 't', 'x', 't'] {
        s.subrange(0, s.len() - 4) + seq!['.', 'p', 'n', 'g']
    } else {
        s
    }
}

/// Relies on `regex::Regex::new` and `Regex::replacen`: the pattern `\.txt$`
/// matches only a final `.txt` (no multi-line mode), and `replacen` with limit 1
/// and the literal replacement `.png` replaces that match, or returns the
/// haystack unchanged where there is none.
#[verifier::external_body]
fn replace_txt_with_png(s: &str) -> (r: String)
    ensures
        r@ == png_for_txt(s@),
{
    regex::Regex::new(r"\.txt$").unwrap().replacen(s, 1, ".png").into_owned()
}

/// The companion image of a piece-definition resource: its `.txt` extension
/// replaced by `.png`.
pub fn companion_image_path(resource: &str) -> (r: String)
    ensures
        r@ == png_for_txt(resource@),
{
    replace_txt_with_png(resource)
}

/// One kind of piece: its definition, shared with every piece built from it,
/// and the handle of its image.
pub struct PieceFactory {
    pub definition: Rc<PieceDefinition>,
    pub texture: usize,
}

impl PieceFactory {
    /// Loads the definition from the lines of `resource`, to be drawn with `texture`.
    pub fn new(resource: &str, lines: &Vec<String>, texture: usize) -> (r: Result<PieceFactory, Error>)
        ensures
            match load_spec(lines_view(lines@)) {
                Ok((name, moves)) => r matches Ok(f) && f.definition.name@ == name
                    && f.definition.moves@ == moves && f.texture == texture,
                Err(i) => r matches Err(Error::MalformedMovementRule { resource: rs, line, text })
                    && rs@ == resource@ && line == i + 1 && 0 <= i < lines@.len() && text@
                    == lines@[i]@,
            },
    {
        match load_definition(resource, lines) {
            Ok(d) => Ok(PieceFactory { definition: Rc::new(d), texture }),
            Err(e) => Err(e),
        }
    }

    /// A new piece of `team` at column `pos_horz` and row `pos_vert` (both from 0)
    /// that shares this factory's definition.
    pub fn build_piece(&self, team: u32, pos_horz: u32, pos_vert: u32) -> (r: Piece)
        ensures
            r.team == team,
            r.column == pos_horz,
            r.row == pos_vert,
            r.definition == self.definition,
    {
        Piece::new(team, pos_horz, pos_vert, Rc::clone(&self.definition))
    }
}

} // verus!
