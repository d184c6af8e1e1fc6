use vstd::prelude::*;

use crate::chess::movement::{rule_of, MovementVector};
use crate::chess::text::{parse_i32, parse_i32_spec, split_words, trim, trim_chars, words};
use crate::error::Error;

verus! {

/// The name and the ordered movement rules of one kind of piece.
pub struct PieceDefinition {
    pub name: String,
    pub moves: Vec<MovementVector>,
}

/// Where the loader stands in the sections of a piece-definition resource.
#[derive(Debug, Clone, Copy, PartialEq, Eq)]
pub enum LoadState {
    /// Before the `start_name` line.
    Start,
    /// The next line is the name.
    Name,
    /// After the name, before the `start_moves` line.
    LookingForMoves,
    /// Between `start_moves` and `end_moves`.
    Moves,
}

pub open spec fn start_name_text() -> Seq<char> {
    seq!['s', 't', 'a', 'r', 't', '_', 'n', 'a', 'm', 'e']
}

pub open spec fn start_moves_text() -> Seq<char> {
    seq!['s', 't', 'a', 'r', 't', '_', 'm', 'o', 'v', 'e', 's']
}

pub open spec fn end_moves_text() -> Seq<char> {
    seq!['e', 'n', 'd', '_', 'm', 'o', 'v', 'e', 's']
}

/// A trimmed line that the loader passes over: blank, or a comment.
pub open spec fn is_skipped(t: Seq<char>) -> bool {
    t.len() == 0 || t[0] == '#'
}

/// The rule that a trimmed movement line writes: its first three words read
/// as integers `dh dv mode`; later words are ignored. Every rule is a triple,
/// so a line with fewer than three words writes no rule and is malformed.
pub open spec fn move_rule_of(t: Seq<char>) -> Option<MovementVector> {
    let w = words(t);
    if w.len() >= 3 {
        match (parse_i32_spec(w[0]), parse_i32_spec(w[1]), parse_i32_spec(w[2])) {
            (Some(dh), Some(dv), Some(mode)) => rule_of(dh as int, dv as int, mode as int),
            _ => None,
        }
    } else {
        None
    }
}

/// What loading `lines` from line `i` on yields, in state `st`, with the name and
/// rules read so far: the name and rules, or the index of a malformed line.
pub open spec fn load_from(
    lines: Seq<Seq<char>>,
    i: int,
    st: LoadState,
    name: Seq<char>,
    moves: Seq<MovementVector>,
) -> Result<(Seq<char>, Seq<MovementVector>), int>
    decreases lines.len() - i,
{
    if i < 0 || i >= lines.len() {
        Ok((name, moves))
    } else {
        let t = trim(lines[i]);
        if is_skipped(t) {
            load_from(lines, i + 1, st, name, moves)
        } else {
            match st {
                LoadState::Start => if t == start_name_text() {
                    load_from(lines, i + 1, LoadState::Name, name, moves)
                } else {
                    load_from(lines, i + 1, st, name, moves)
                },
                LoadState::Name => load_from(lines, i + 1, LoadState::LookingForMoves, t, moves),
                LoadState::LookingForMoves => if t == start_moves_text() {
                    load_from(lines, i + 1, LoadState::Moves, name, moves)
                } else {
                    load_from(lines, i + 1, st, name, moves)
                },
                LoadState::Moves => if t == end_moves_text() {
                    Ok((name, moves))
                } else {
                    match move_rule_of(t) {
                        Some(m) => load_from(lines, i + 1, st, name, moves.push(m)),
                        None => Err(i),
                    }
                },
            }
        }
    }
}

/// What loading a whole resource of `lines` yields.
///
/// A resource that never reaches its sections loads as an empty name with no
/// rules; a resource that ends without `end_moves` keeps the rules read.
pub open spec fn load_spec(lines: Seq<Seq<char>>) -> Result<(Seq<char>, Seq<MovementVector>), int> {
    load_from(lines, 0, LoadState::Start, Seq::empty(), Seq::empty())
}

/// The text of each line.
pub open spec fn lines_view(lines: Seq<String>) -> Seq<Seq<char>> {
    lines.map_values(|l: String| l@)
}

/// Relies on `str::chars`, collected: the characters of `s` in order.
#[verifier::external_body]
fn chars_of(s: &str) -> (r: Vec<char>)
    ensures
        r@ == s@,
{
    s.chars().collect()
}

/// Relies on `String::from_iter` over characters: the string of `v`'s characters.
#[verifier::external_body]
fn string_of(v: &Vec<char>) -> (r: String)
    ensures
        r@ == v@,
{
    v.iter().collect()
}

fn chars_equal(a: &Vec<char>, b: &Vec<char>) -> (r: bool)
    ensures
        r == (a@ == b@),
{
    if a.len() != b.len() {
        return false;
    }
    let mut i: usize = 0;
    while i < a.len()
        invariant
            0 <= i <= a@.len(),
            a@.len() == b@.len(),
            forall|k: int| 0 <= k < i ==> a@[k] == b@[k],
        decreases a@.len() - i,
    {
        if a[i] != b[i] {
            return false;
        }
        i = i + 1;
    }
    assert(a@ =~= b@);
    true
}

/// Reads the rule of a trimmed movement line.
pub fn parse_move_line(t: &Vec<char>) -> (r: Option<MovementVector>)
    ensures
        r == move_rule_of(t@),
{
    let w = split_words(t);
    proof {
        assert(w@.map_values(|x: Vec<char>| x@).len() == w@.len());
    }
    if w.len() < 3 {
        return None;
    }
    proof {
        assert(w@.map_values(|x: Vec<char>| x@)[0] == w@[0]@);
        assert(w@.map_values(|x: Vec<char>| x@)[1] == w@[1]@);
        assert(w@.map_values(|x: Vec<char>| x@)[2] == w@[2]@);
    }
    let dh = parse_i32(&w[0]);
    let dv = parse_i32(&w[1]);
    let mode = parse_i32(&w[2]);
    match (dh, dv, mode) {
        (Some(dh), Some(dv), Some(mode)) => MovementVector::from_parts(dh, dv, mode),
        _ => None,
    }
}

/// Loads a piece definition from the lines of a resource named `resource`.
///
/// Lines are trimmed; blank lines and lines that start with `#` are skipped.
/// The first line after `start_name` is the name; the lines between
/// `start_moves` and `end_moves` are the movement rules, in order; a movement
/// line that does not write three integers with a mode in `0..6` is malformed.
pub fn load_definition(resource: &str, lines: &Vec<String>) -> (r: Result<PieceDefinition, Error>)
    ensures
        match load_spec(lines_view(lines@)) {
            Ok((name, moves)) => r matches Ok(d) && d.name@ == name && d.moves@ == moves,
            Err(i) => r matches Err(Error::MalformedMovementRule { resource: rs, line, text })
                && rs@ == resource@ && line == i + 1 && 0 <= i < lines@.len() && text@
                == lines@[i]@,
        },
{
    let ghost lv = lines_view(lines@);
    let start_name: Vec<char> = vec!['s', 't', 'a', 'r', 't', '_', 'n', 'a', 'm', 'e'];
    let start_moves: Vec<char> = vec!['s', 't', 'a', 'r', 't', '_', 'm', 'o', 'v', 'e', 's'];
    let end_moves: Vec<char> = vec!['e', 'n', 'd', '_', 'm', 'o', 'v', 'e', 's'];
    assert(start_name@ =~= start_name_text());
    assert(start_moves@ =~= start_moves_text());
    assert(end_moves@ =~= end_moves_text());
    let mut name: Vec<char> = Vec::new();
    let mut moves: Vec<MovementVector> = Vec::new();
    let mut st = LoadState::Start;
    let mut i: usize = 0;
    while i < lines.len()
        invariant
            0 <= i <= lines@.len(),
            lv == lines_view(lines@),
            lv.len() == lines@.len(),
            start_name@ == start_name_text(),
            start_moves@ == start_moves_text(),
            end_moves@ == end_moves_text(),
            load_from(lv, i as int, st, name@, moves@) == load_spec(lv),
        ensures
            load_spec(lv) == Ok::<(Seq<char>, Seq<MovementVector>), int>((name@, moves@)),
        decreases lines@.len() - i,
    {
        let line = chars_of(lines[i].as_str());
        let t = trim_chars(&line);
        assert(lv[i as int] == lines@[i as int]@);
        if t.len() == 0 || t[0] == '#' {
            i = i + 1;
            continue;
        }
        match st {
            LoadState::Start => {
                if chars_equal(&t, &start_name) {
                    st = LoadState::Name;
                }
            },
            LoadState::Name => {
                name = t;
                st = LoadState::LookingForMoves;
            },
            LoadState::LookingForMoves => {
                if chars_equal(&t, &start_moves) {
                    st = LoadState::Moves;
                }
            },
            LoadState::Moves => {
                if chars_equal(&t, &end_moves) {
                    assert(load_spec(lv) == Ok::<(Seq<char>, Seq<MovementVector>), int>((name@, moves@)));
                    break;
                }
                match parse_move_line(&t) {
                    Some(m) => {
                        moves.push(m);
                    },
                    None => {
                        assert(load_spec(lv) == Err::<(Seq<char>, Seq<MovementVector>), int>(i as int));
                        return Err(
                            Error::MalformedMovementRule {
                                resource: resource.to_owned(),
                                line: i + 1,
                                text: lines[i].clone(),
                            },
                        );
                    },
                }
            },
        }
        i = i + 1;
    }
    Ok(PieceDefinition { name: string_of(&name), moves })
}

} // verus!
