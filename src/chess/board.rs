use vstd::prelude::*;

use crate::chess::board_space::{valid_column, valid_row, BoardSpace, BOARD_SIZE};
use crate::chess::loader::PieceDefinition;
use crate::chess::movement::MovementVector;
use crate::error::Error;
use std::rc::Rc;

verus! {

/// A piece on the board: its team, its column and row (both from 0), and the
/// definition that it shares with the other pieces of its kind.
pub struct Piece {
    pub team: u32,
    pub column: u32,
    pub row: u32,
    pub definition: Rc<PieceDefinition>,
}

impl Piece {
    pub fn new(team: u32, column: u32, row: u32, definition: Rc<PieceDefinition>) -> (r: Piece)
        ensures
            r.team == team,
            r.column == column,
            r.row == row,
            r.definition == definition,
    {
        Piece { team, column, row, definition }
    }
}

/// Number of spaces on the board.
pub const SPACE_COUNT: usize = 64;

pub open spec fn in_bounds(x: int, y: int) -> bool {
    0 <= x < BOARD_SIZE && 0 <= y < BOARD_SIZE
}

/// Index of the space at column `x` and row `y`, both from 0.
pub open spec fn pos_index(x: int, y: int) -> int {
    y * 8 + x
}

/// Column (from 0) of a column letter.
pub open spec fn column_of(c: char) -> int {
    c as u32 - 'a' as u32
}

/// Spaces that a rule marks for a move, walking from `(x, y)` on with at most
/// `fuel` more steps: empty spaces, up to the first occupied one or the edge.
pub open spec fn ray_moves(
    occ: Seq<Option<Piece>>,
    v: MovementVector,
    x: int,
    y: int,
    fuel: nat,
) -> Set<int>
    decreases fuel,
{
    if fuel == 0 || !in_bounds(x, y) {
        Set::empty()
    } else {
        match occ[pos_index(x, y)] {
            None => {
                let here = if v.can_move {
                    set![pos_index(x, y)]
                } else {
                    Set::empty()
                };
                if v.sliding {
                    here + ray_moves(
                        occ,
                        v,
                        x + v.delta_horizontal,
                        y + v.delta_vertical,
                        (fuel - 1) as nat,
                    )
                } else {
                    here
                }
            },
            Some(_) => Set::empty(),
        }
    }
}

/// Spaces that a rule of a piece of `team` marks for a capture, walking from
/// `(x, y)` on: the first occupied space, where an opposing piece stands.
pub open spec fn ray_captures(
    occ: Seq<Option<Piece>>,
    team: u32,
    v: MovementVector,
    x: int,
    y: int,
    fuel: nat,
) -> Set<int>
    decreases fuel,
{
    if fuel == 0 || !in_bounds(x, y) {
        Set::empty()
    } else {
        match occ[pos_index(x, y)] {
            None => if v.sliding {
                ray_captures(
                    occ,
                    team,
                    v,
                    x + v.delta_horizontal,
                    y + v.delta_vertical,
                    (fuel - 1) as nat,
                )
            } else {
                Set::empty()
            },
            Some(q) => if q.team != team && v.can_capture {
                set![pos_index(x, y)]
            } else {
                Set::empty()
            },
        }
    }
}

/// A walk never needs more steps than the board is wide: a rule that moves
/// leaves the board by then, and one that does not stops on its own piece.
pub open spec fn walk_fuel() -> nat {
    BOARD_SIZE as nat
}

/// Spaces marked for a move by the first `n` rules of a piece at `(x, y)`.
pub open spec fn moves_of(
    occ: Seq<Option<Piece>>,
    rules: Seq<MovementVector>,
    x: int,
    y: int,
    n: int,
) -> Set<int>
    decreases n,
{
    if n <= 0 {
        Set::empty()
    } else {
        moves_of(occ, rules, x, y, n - 1) + ray_moves(
            occ,
            rules[n - 1],
            x + rules[n - 1].delta_horizontal,
            y + rules[n - 1].delta_vertical,
            walk_fuel(),
        )
    }
}

/// Spaces marked for a capture by the first `n` rules of a piece of `team` at `(x, y)`.
pub open spec fn captures_of(
    occ: Seq<Option<Piece>>,
    team: u32,
    rules: Seq<MovementVector>,
    x: int,
    y: int,
    n: int,
) -> Set<int>
    decreases n,
{
    if n <= 0 {
        Set::empty()
    } else {
        captures_of(occ, team, rules, x, y, n - 1) + ray_captures(
            occ,
            team,
            rules[n - 1],
            x + rules[n - 1].delta_horizontal,
            y + rules[n - 1].delta_vertical,
            walk_fuel(),
        )
    }
}

/// Indices of the spaces whose move flag is set.
pub open spec fn move_flags(s: Seq<BoardSpace>) -> Set<int> {
    Set::new(|q: int| 0 <= q < s.len() && s[q].available_to_move)
}

/// Indices of the spaces whose capture flag is set.
pub open spec fn kill_flags(s: Seq<BoardSpace>) -> Set<int> {
    Set::new(|q: int| 0 <= q < s.len() && s[q].available_to_kill)
}

/// Every space has its three transient flags cleared.
pub open spec fn all_reset(s: Seq<BoardSpace>) -> bool {
    forall|q: int| 0 <= q < s.len() ==> (#[trigger] s[q]).is_reset()
}

/// The coordinates of each space stay what they were.
pub open spec fn same_places(a: Seq<BoardSpace>, b: Seq<BoardSpace>) -> bool {
    a.len() == b.len() && forall|q: int|
        0 <= q < a.len() ==> (#[trigger] a[q]).horz_position == b[q].horz_position
            && a[q].vert_position == b[q].vert_position && a[q].is_active == b[q].is_active
}

/// Spaces that a rule of a piece of `attacker` threatens, walking from `(x, y)`
/// on: each empty space that a capture could land on, up to and including the
/// first occupied one where that one holds a piece of another team.
pub open spec fn ray_threats(
    occ: Seq<Option<Piece>>,
    attacker: u32,
    v: MovementVector,
    x: int,
    y: int,
    fuel: nat,
) -> Set<int>
    decreases fuel,
{
    if fuel == 0 || !in_bounds(x, y) || !v.can_capture {
        Set::empty()
    } else {
        match occ[pos_index(x, y)] {
            None => if v.sliding {
                set![pos_index(x, y)] + ray_threats(
                    occ,
                    attacker,
                    v,
                    x + v.delta_horizontal,
                    y + v.delta_vertical,
                    (fuel - 1) as nat,
                )
            } else {
                set![pos_index(x, y)]
            },
            Some(q) => if q.team != attacker {
                set![pos_index(x, y)]
            } else {
                Set::empty()
            },
        }
    }
}

/// Spaces threatened by the first `n` rules of a piece of `attacker` at `(x, y)`.
pub open spec fn threats_of(
    occ: Seq<Option<Piece>>,
    attacker: u32,
    rules: Seq<MovementVector>,
    x: int,
    y: int,
    n: int,
) -> Set<int>
    decreases n,
{
    if n <= 0 {
        Set::empty()
    } else {
        threats_of(occ, attacker, rules, x, y, n - 1) + ray_threats(
            occ,
            attacker,
            rules[n - 1],
            x + rules[n - 1].delta_horizontal,
            y + rules[n - 1].delta_vertical,
            walk_fuel(),
        )
    }
}

/// Spaces threatened by the pieces of teams other than `team` among the first
/// `n` spaces.
pub open spec fn danger_of(occ: Seq<Option<Piece>>, team: u32, n: int) -> Set<int>
    decreases n,
{
    if n <= 0 {
        Set::empty()
    } else {
        danger_of(occ, team, n - 1) + match occ[n - 1] {
            Some(o) => if o.team != team {
                threats_of(
                    occ,
                    o.team,
                    o.definition.moves@,
                    o.column as int,
                    o.row as int,
                    o.definition.moves@.len() as int,
                )
            } else {
                Set::empty()
            },
            None => Set::empty(),
        }
    }
}

/// Indices of the spaces whose danger flag is set.
pub open spec fn danger_flags(s: Seq<BoardSpace>) -> Set<int> {
    Set::new(|q: int| 0 <= q < s.len() && s[q].is_danger)
}

/// An 8 by 8 board: its spaces and the piece on each, indexed by `pos_index`,
/// and the space of the selected piece, if any.
pub struct Board {
    pub spaces: Vec<BoardSpace>,
    pub occupants: Vec<Option<Piece>>,
    pub selected: Option<usize>,
}

impl Board {
    /// Each piece records the place where it stands.
    pub open spec fn wf(&self) -> bool {
        &&& self.spaces@.len() == SPACE_COUNT
        &&& self.occupants@.len() == SPACE_COUNT
        &&& forall|x: int, y: int|
            in_bounds(x, y) && (#[trigger] self.occupants@[pos_index(x, y)]) is Some ==> {
                let p = self.occupants@[pos_index(x, y)]->Some_0;
                p.column == x && p.row == y
            }
    }

    /// The piece at index `q`, if any.
    pub open spec fn piece_at(&self, q: int) -> Option<Piece> {
        self.occupants@[q]
    }

    /// Spaces marked for a move when the piece `p` is selected.
    pub open spec fn moves_for(&self, p: Piece) -> Set<int> {
        moves_of(
            self.occupants@,
            p.definition.moves@,
            p.column as int,
            p.row as int,
            p.definition.moves@.len() as int,
        )
    }

    /// Spaces threatened by the pieces of other teams than that of `p`.
    pub open spec fn danger_for(&self, p: Piece) -> Set<int> {
        danger_of(self.occupants@, p.team, SPACE_COUNT as int)
    }

    /// Spaces marked for a capture when the piece `p` is selected.
    pub open spec fn captures_for(&self, p: Piece) -> Set<int> {
        captures_of(
            self.occupants@,
            p.team,
            p.definition.moves@,
            p.column as int,
            p.row as int,
            p.definition.moves@.len() as int,
        )
    }

    /// Walks one rule of a piece of `team` standing at `(x0, y0)` and sets the
    /// move and capture flags of the spaces that it reaches.
    fn mark_ray(&mut self, team: u32, v: MovementVector, x0: i64, y0: i64)
        requires
            old(self).wf(),
            in_bounds(x0 as int, y0 as int),
        ensures
            final(self).wf(),
            final(self).occupants@ == old(self).occupants@,
            final(self).selected == old(self).selected,
            same_places(final(self).spaces@, old(self).spaces@),
            forall|q: int|
                0 <= q < SPACE_COUNT ==> (#[trigger] final(self).spaces@[q]).is_danger
                    == old(self).spaces@[q].is_danger,
            move_flags(final(self).spaces@) == move_flags(old(self).spaces@) + ray_moves(
                old(self).occupants@,
                v,
                x0 + v.delta_horizontal,
                y0 + v.delta_vertical,
                walk_fuel(),
            ),
            kill_flags(final(self).spaces@) == kill_flags(old(self).spaces@) + ray_captures(
                old(self).occupants@,
                team,
                v,
                x0 + v.delta_horizontal,
                y0 + v.delta_vertical,
                walk_fuel(),
            ),
    {
        let ghost occ = self.occupants@;
        let ghost s0 = self.spaces@;
        let ghost mv_all = ray_moves(occ, v, x0 + v.delta_horizontal, y0 + v.delta_vertical, walk_fuel());
        let ghost kl_all = ray_captures(occ, team, v, x0 + v.delta_horizontal, y0 + v.delta_vertical, walk_fuel());
        let mut cx: i64 = x0 + v.delta_horizontal as i64;
        let mut cy: i64 = y0 + v.delta_vertical as i64;
        let mut fuel: u32 = BOARD_SIZE;
        loop
            invariant
                self.wf(),
                self.occupants@ == occ,
                self.selected == old(self).selected,
                same_places(self.spaces@, s0),
                forall|q: int|
                    0 <= q < SPACE_COUNT ==> (#[trigger] self.spaces@[q]).is_danger
                        == s0[q].is_danger,
                s0 == old(self).spaces@,
                occ == old(self).occupants@,
                fuel <= BOARD_SIZE,
                -0x1_0000_0000 < cx < 0x1_0000_0000,
                -0x1_0000_0000 < cy < 0x1_0000_0000,
                mv_all == ray_moves(occ, v, x0 + v.delta_horizontal, y0 + v.delta_vertical, walk_fuel()),
                kl_all == ray_captures(occ, team, v, x0 + v.delta_horizontal, y0 + v.delta_vertical, walk_fuel()),
                move_flags(self.spaces@) + ray_moves(occ, v, cx as int, cy as int, fuel as nat)
                    == move_flags(s0) + mv_all,
                kill_flags(self.spaces@) + ray_captures(occ, team, v, cx as int, cy as int, fuel as nat)
                    == kill_flags(s0) + kl_all,
            ensures
                self.wf(),
                self.occupants@ == occ,
                self.selected == old(self).selected,
                same_places(self.spaces@, s0),
                forall|q: int|
                    0 <= q < SPACE_COUNT ==> (#[trigger] self.spaces@[q]).is_danger
                        == s0[q].is_danger,
                move_flags(self.spaces@) == move_flags(s0) + mv_all,
                kill_flags(self.spaces@) == kill_flags(s0) + kl_all,
            decreases fuel,
        {
            if fuel == 0 || !(0 <= cx && cx < 8 && 0 <= cy && cy < 8) {
                assert(ray_moves(occ, v, cx as int, cy as int, fuel as nat) =~= Set::empty());
                assert(ray_captures(occ, team, v, cx as int, cy as int, fuel as nat) =~= Set::empty());
                assert(move_flags(self.spaces@) + Set::<int>::empty() =~= move_flags(self.spaces@));
                assert(kill_flags(self.spaces@) + Set::<int>::empty() =~= kill_flags(self.spaces@));
                break;
            }
            let p: usize = (cy * 8 + cx) as usize;
            assert(p == pos_index(cx as int, cy as int));
            let occupant_team: Option<u32> = match &self.occupants[p] {
                Some(q) => Some(q.team),
                None => None,
            };
            let ghost before = self.spaces@;
            match occupant_team {
                None => {
                    if v.can_move {
                        let mut sp = self.spaces[p];
                        sp.available_to_move = true;
                        self.spaces.set(p, sp);
                    }
                    assert(kill_flags(self.spaces@) =~= kill_flags(before));
                    let ghost here = if v.can_move { set![p as int] } else { Set::<int>::empty() };
                    assert(move_flags(self.spaces@) =~= move_flags(before) + here);
                    if !v.sliding {
                        assert(ray_moves(occ, v, cx as int, cy as int, fuel as nat) == here);
                        assert(ray_captures(occ, team, v, cx as int, cy as int, fuel as nat) =~= Set::empty());
                        assert(kill_flags(self.spaces@) + Set::<int>::empty() =~= kill_flags(self.spaces@));
                        break;
                    }
                    let ghost rest = ray_moves(occ, v, cx + v.delta_horizontal, cy + v.delta_vertical, (fuel - 1) as nat);
                    assert(ray_moves(occ, v, cx as int, cy as int, fuel as nat) == here + rest);
                    assert(move_flags(before) + (here + rest) =~= (move_flags(before) + here) + rest);
                    cx = cx + v.delta_horizontal as i64;
                    cy = cy + v.delta_vertical as i64;
                    fuel = fuel - 1;
                },
                Some(t) => {
                    let ghost here = if t != team && v.can_capture { set![p as int] } else { Set::<int>::empty() };
                    if t != team && v.can_capture {
                        let mut sp = self.spaces[p];
                        sp.available_to_kill = true;
                        self.spaces.set(p, sp);
                    }
                    assert(move_flags(self.spaces@) =~= move_flags(before));
                    assert(kill_flags(self.spaces@) =~= kill_flags(before) + here);
                    assert(ray_moves(occ, v, cx as int, cy as int, fuel as nat) =~= Set::empty());
                    assert(ray_captures(occ, team, v, cx as int, cy as int, fuel as nat) == here);
                    assert(move_flags(self.spaces@) + Set::<int>::empty() =~= move_flags(self.spaces@));
                    break;
                },
            }
        }
    }

    /// Walks one rule of a piece of `attacker` standing at `(x0, y0)` and sets the
    /// danger flag of the spaces that it threatens.
    fn mark_threat_ray(&mut self, attacker: u32, v: MovementVector, x0: i64, y0: i64)
        requires
            old(self).wf(),
            in_bounds(x0 as int, y0 as int),
        ensures
            final(self).wf(),
            final(self).occupants@ == old(self).occupants@,
            final(self).selected == old(self).selected,
            same_places(final(self).spaces@, old(self).spaces@),
            move_flags(final(self).spaces@) == move_flags(old(self).spaces@),
            kill_flags(final(self).spaces@) == kill_flags(old(self).spaces@),
            danger_flags(final(self).spaces@) == danger_flags(old(self).spaces@) + ray_threats(
                old(self).occupants@,
                attacker,
                v,
                x0 + v.delta_horizontal,
                y0 + v.delta_vertical,
                walk_fuel(),
            ),
    {
        let ghost occ = self.occupants@;
        let ghost s0 = self.spaces@;
        let ghost all = ray_threats(occ, attacker, v, x0 + v.delta_horizontal, y0 + v.delta_vertical, walk_fuel());
        let mut cx: i64 = x0 + v.delta_horizontal as i64;
        let mut cy: i64 = y0 + v.delta_vertical as i64;
        let mut fuel: u32 = BOARD_SIZE;
        loop
            invariant
                self.wf(),
                self.occupants@ == occ,
                self.selected == old(self).selected,
                same_places(self.spaces@, s0),
                s0 == old(self).spaces@,
                occ == old(self).occupants@,
                move_flags(self.spaces@) == move_flags(s0),
                kill_flags(self.spaces@) == kill_flags(s0),
                fuel <= BOARD_SIZE,
                -0x1_0000_0000 < cx < 0x1_0000_0000,
                -0x1_0000_0000 < cy < 0x1_0000_0000,
                all == ray_threats(occ, attacker, v, x0 + v.delta_horizontal, y0 + v.delta_vertical, walk_fuel()),
                danger_flags(self.spaces@) + ray_threats(occ, attacker, v, cx as int, cy as int, fuel as nat)
                    == danger_flags(s0) + all,
            ensures
                self.wf(),
                self.occupants@ == occ,
                self.selected == old(self).selected,
                same_places(self.spaces@, s0),
                move_flags(self.spaces@) == move_flags(s0),
                kill_flags(self.spaces@) == kill_flags(s0),
                danger_flags(self.spaces@) == danger_flags(s0) + all,
            decreases fuel,
        {
            if fuel == 0 || !(0 <= cx && cx < 8 && 0 <= cy && cy < 8) || !v.can_capture {
                assert(ray_threats(occ, attacker, v, cx as int, cy as int, fuel as nat) =~= Set::empty());
                assert(danger_flags(self.spaces@) + Set::<int>::empty() =~= danger_flags(self.spaces@));
                break;
            }
            let p: usize = (cy * 8 + cx) as usize;
            assert(p == pos_index(cx as int, cy as int));
            let occupant_team: Option<u32> = match &self.occupants[p] {
                Some(q) => Some(q.team),
                None => None,
            };
            let ghost before = self.spaces@;
            let marks = match occupant_team {
                Some(t) => t != attacker,
                None => true,
            };
            if marks {
                let mut sp = self.spaces[p];
                sp.is_danger = true;
                self.spaces.set(p, sp);
            }
            let ghost here = if marks { set![p as int] } else { Set::<int>::empty() };
            assert(move_flags(self.spaces@) =~= move_flags(before));
            assert(kill_flags(self.spaces@) =~= kill_flags(before));
            assert(danger_flags(self.spaces@) =~= danger_flags(before) + here);
            if occupant_team.is_some() || !v.sliding {
                assert(ray_threats(occ, attacker, v, cx as int, cy as int, fuel as nat) == here);
                break;
            }
            let ghost rest = ray_threats(occ, attacker, v, cx + v.delta_horizontal, cy + v.delta_vertical, (fuel - 1) as nat);
            assert(ray_threats(occ, attacker, v, cx as int, cy as int, fuel as nat) == here + rest);
            assert(danger_flags(before) + (here + rest) =~= (danger_flags(before) + here) + rest);
            cx = cx + v.delta_horizontal as i64;
            cy = cy + v.delta_vertical as i64;
            fuel = fuel - 1;
        }
    }

    /// Sets the danger flag of every space threatened by a piece of a team other
    /// than `team`.
    fn mark_danger(&mut self, team: u32)
        requires
            old(self).wf(),
            danger_flags(old(self).spaces@) == Set::<int>::empty(),
        ensures
            final(self).wf(),
            final(self).occupants@ == old(self).occupants@,
            final(self).selected == old(self).selected,
            same_places(final(self).spaces@, old(self).spaces@),
            move_flags(final(self).spaces@) == move_flags(old(self).spaces@),
            kill_flags(final(self).spaces@) == kill_flags(old(self).spaces@),
            danger_flags(final(self).spaces@) == danger_of(old(self).occupants@, team, SPACE_COUNT as int),
    {
        let ghost occ = self.occupants@;
        let ghost s0 = self.spaces@;
        let mut k: usize = 0;
        while k < SPACE_COUNT
            invariant
                self.wf(),
                self.occupants@ == occ,
                occ == old(self).occupants@,
                s0 == old(self).spaces@,
                self.selected == old(self).selected,
                same_places(self.spaces@, s0),
                move_flags(self.spaces@) == move_flags(s0),
                kill_flags(self.spaces@) == kill_flags(s0),
                0 <= k <= SPACE_COUNT,
                danger_flags(self.spaces@) == danger_of(occ, team, k as int),
            decreases SPACE_COUNT - k,
        {
            let attacker: Option<(u32, Rc<PieceDefinition>, u32, u32)> = match &self.occupants[k] {
                Some(o) => if o.team != team {
                    Some((o.team, o.definition.clone(), o.column, o.row))
                } else {
                    None
                },
                None => None,
            };
            match attacker {
                Some((t, definition, x, y)) => {
                    proof {
                        let a = (k as int) % 8;
                        let b = (k as int) / 8;
                        assert(pos_index(a, b) == k as int);
                        assert(in_bounds(a, b));
                        assert(occ[pos_index(a, b)] is Some);
                    }
                    let ghost rules = definition.moves@;
                    let ghost base = danger_flags(self.spaces@);
                    let mut i: usize = 0;
                    assert(base + threats_of(occ, t, rules, x as int, y as int, 0) =~= base);
                    while i < definition.moves.len()
                        invariant
                            self.wf(),
                            self.occupants@ == occ,
                            self.selected == old(self).selected,
                            same_places(self.spaces@, s0),
                            move_flags(self.spaces@) == move_flags(s0),
                            kill_flags(self.spaces@) == kill_flags(s0),
                            rules == definition.moves@,
                            0 <= i <= rules.len(),
                            in_bounds(x as int, y as int),
                            danger_flags(self.spaces@) == base + threats_of(occ, t, rules, x as int, y as int, i as int),
                        decreases rules.len() - i,
                    {
                        let v = definition.moves[i];
                        let ghost prev = danger_flags(self.spaces@);
                        self.mark_threat_ray(t, v, x as i64, y as i64);
                        assert(danger_flags(self.spaces@) =~= base + threats_of(occ, t, rules, x as int, y as int, i + 1));
                        i = i + 1;
                    }
                },
                None => {
                    assert(danger_of(occ, team, k + 1) =~= danger_of(occ, team, k as int));
                },
            }
            k = k + 1;
        }
    }

    /// Clears the three transient flags of every space.
    fn reset_all(&mut self)
        requires
            old(self).wf(),
        ensures
            final(self).wf(),
            final(self).occupants@ == old(self).occupants@,
            final(self).selected == old(self).selected,
            same_places(final(self).spaces@, old(self).spaces@),
            all_reset(final(self).spaces@),
    {
        let ghost s0 = self.spaces@;
        let mut q: usize = 0;
        while q < self.spaces.len()
            invariant
                self.wf(),
                self.occupants@ == old(self).occupants@,
                self.selected == old(self).selected,
                s0 == old(self).spaces@,
                same_places(self.spaces@, s0),
                0 <= q <= self.spaces@.len(),
                forall|k: int| 0 <= k < q ==> (#[trigger] self.spaces@[k]).is_reset(),
            decreases self.spaces@.len() - q,
        {
            let mut sp = self.spaces[q];
            sp.reset_status();
            self.spaces.set(q, sp);
            q = q + 1;
        }
    }

    /// Index of the space at a column letter and a row number (from 1), if on the board.
    fn index_of(column: char, row: u32) -> (r: Option<usize>)
        ensures
            (valid_column(column) && valid_row(row as int)) <==> r is Some,
            r matches Some(q) ==> q == pos_index(column_of(column), row - 1) && in_bounds(
                column_of(column),
                row - 1,
            ),
    {
        if 'a' <= column && column <= 'h' && 1 <= row && row <= BOARD_SIZE {
            let x = column as u32 - 'a' as u32;
            Some(((row - 1) * 8 + x) as usize)
        } else {
            None
        }
    }

    /// An empty 8 by 8 board: columns 'a' to 'h', rows 1 to 8, no flag set.
    pub fn new() -> (r: Board)
        ensures
            r.wf(),
            r.selected is None,
            all_reset(r.spaces@),
            forall|q: int| 0 <= q < SPACE_COUNT ==> (#[trigger] r.occupants@[q]) is None,
            forall|x: int, y: int|
                in_bounds(x, y) ==> column_of((#[trigger] r.spaces@[pos_index(x, y)]).horz_position)
                    == x && r.spaces@[pos_index(x, y)].vert_position == y + 1
                    && r.spaces@[pos_index(x, y)].is_active,
    {
        let letters: Vec<char> = vec!['a', 'b', 'c', 'd', 'e', 'f', 'g', 'h'];
        let mut spaces: Vec<BoardSpace> = Vec::new();
        let mut occupants: Vec<Option<Piece>> = Vec::new();
        let mut y: u32 = 0;
        while y < BOARD_SIZE
            invariant
                0 <= y <= BOARD_SIZE,
                letters@ == seq!['a', 'b', 'c', 'd', 'e', 'f', 'g', 'h'],
                spaces@.len() == y * 8,
                occupants@.len() == y * 8,
                all_reset(spaces@),
                forall|q: int| 0 <= q < occupants@.len() ==> (#[trigger] occupants@[q]) is None,
                forall|a: int, b: int|
                    0 <= a < 8 && 0 <= b < y ==> column_of(
                        (#[trigger] spaces@[pos_index(a, b)]).horz_position,
                    ) == a && spaces@[pos_index(a, b)].vert_position == b + 1
                        && spaces@[pos_index(a, b)].is_active,
            decreases BOARD_SIZE - y,
        {
            let mut x: usize = 0;
            while x < 8
                invariant
                    0 <= y < BOARD_SIZE,
                    0 <= x <= 8,
                    letters@ == seq!['a', 'b', 'c', 'd', 'e', 'f', 'g', 'h'],
                    spaces@.len() == y * 8 + x,
                    occupants@.len() == y * 8 + x,
                    all_reset(spaces@),
                    forall|q: int| 0 <= q < occupants@.len() ==> (#[trigger] occupants@[q]) is None,
                    forall|a: int, b: int|
                        0 <= a < 8 && 0 <= b <= y && pos_index(a, b) < spaces@.len() ==> column_of(
                            (#[trigger] spaces@[pos_index(a, b)]).horz_position,
                        ) == a && spaces@[pos_index(a, b)].vert_position == b + 1
                            && spaces@[pos_index(a, b)].is_active,
                decreases 8 - x,
            {
                let c = letters[x];
                assert(column_of(c) == x);
                spaces.push(
                    BoardSpace {
                        horz_position: c,
                        vert_position: (y + 1) as i32,
                        is_active: true,
                        available_to_move: false,
                        available_to_kill: false,
                        is_danger: false,
                    },
                );
                occupants.push(None);
                x = x + 1;
            }
            y = y + 1;
        }
        Board { spaces, occupants, selected: None }
    }

    /// Clears every flag and the selection.
    pub fn clear_selection(&mut self)
        requires
            old(self).wf(),
        ensures
            final(self).wf(),
            final(self).occupants@ == old(self).occupants@,
            final(self).selected is None,
            same_places(final(self).spaces@, old(self).spaces@),
            all_reset(final(self).spaces@),
    {
        self.reset_all();
        self.selected = None;
    }

    /// Selects the piece at `column`, `row` and marks the spaces that it may
    /// move to and capture on, and the spaces that pieces of other teams
    /// threaten; every flag is cleared first.
    pub fn select_piece(&mut self, column: char, row: u32) -> (r: Result<(), Error>)
        requires
            old(self).wf(),
        ensures
            final(self).wf(),
            final(self).occupants@ == old(self).occupants@,
            same_places(final(self).spaces@, old(self).spaces@),
            !(valid_column(column) && valid_row(row as int)) ==> r == Err::<(), Error>(
                Error::InvalidPosition,
            ) && final(self).spaces@ == old(self).spaces@ && final(self).selected == old(
                self,
            ).selected,
            (valid_column(column) && valid_row(row as int)) ==> {
                let q = pos_index(column_of(column), row - 1);
                match old(self).piece_at(q) {
                    None => r == Err::<(), Error>(Error::PieceNotFound) && final(self).selected is None
                        && all_reset(final(self).spaces@),
                    Some(p) => r is Ok && final(self).selected == Some(q as usize)
                        && move_flags(final(self).spaces@) == old(self).moves_for(p)
                        && kill_flags(final(self).spaces@) == old(self).captures_for(p)
                        && danger_flags(final(self).spaces@) == old(self).danger_for(p),
                }
            },
    {
        let q = match Board::index_of(column, row) {
            Some(q) => q,
            None => {
                return Err(Error::InvalidPosition);
            },
        };
        self.reset_all();
        self.selected = None;
        let (team, definition, x, y) = match &self.occupants[q] {
            Some(p) => (p.team, p.definition.clone(), p.column, p.row),
            None => {
                return Err(Error::PieceNotFound);
            },
        };
        let ghost occ = self.occupants@;
        let ghost s0 = self.spaces@;
        proof {
            let cx = column_of(column);
            let cy = row - 1;
            assert(in_bounds(cx, cy));
            assert(self.occupants@[pos_index(cx, cy)] is Some);
        }
        let ghost rules = definition.moves@;
        assert(move_flags(s0) =~= Set::empty());
        assert(kill_flags(s0) =~= Set::empty());
        let mut i: usize = 0;
        while i < definition.moves.len()
            invariant
                self.wf(),
                self.occupants@ == occ,
                occ == old(self).occupants@,
                self.selected is None,
                same_places(self.spaces@, old(self).spaces@),
                forall|k: int| 0 <= k < SPACE_COUNT ==> !(#[trigger] self.spaces@[k]).is_danger,
                rules == definition.moves@,
                0 <= i <= rules.len(),
                in_bounds(x as int, y as int),
                move_flags(self.spaces@) == moves_of(occ, rules, x as int, y as int, i as int),
                kill_flags(self.spaces@) == captures_of(occ, team, rules, x as int, y as int, i as int),
            decreases rules.len() - i,
        {
            let v = definition.moves[i];
            self.mark_ray(team, v, x as i64, y as i64);
            i = i + 1;
        }
        assert(danger_flags(self.spaces@) =~= Set::<int>::empty());
        self.mark_danger(team);
        self.selected = Some(q);
        Ok(())
    }

    /// The space at `column`, `row`.
    pub fn space_at(&self, column: char, row: u32) -> (r: Result<&BoardSpace, Error>)
        requires
            self.wf(),
        ensures
            !(valid_column(column) && valid_row(row as int)) ==> r is Err && r->Err_0
                == Error::InvalidPosition,
            (valid_column(column) && valid_row(row as int)) ==> r is Ok && *r->Ok_0
                == self.spaces@[pos_index(column_of(column), row - 1)],
    {
        match Board::index_of(column, row) {
            Some(q) => Ok(&self.spaces[q]),
            None => Err(Error::InvalidPosition),
        }
    }

    /// Puts `piece` on the empty space at `column`, `row`, which it then records
    /// as its place. Clears every flag and the selection.
    pub fn place_piece(&mut self, piece: Piece, column: char, row: u32) -> (r: Result<(), Error>)
        requires
            old(self).wf(),
        ensures
            final(self).wf(),
            !(valid_column(column) && valid_row(row as int)) ==> r == Err::<(), Error>(
                Error::InvalidPosition,
            ) && *final(self) == *old(self),
            (valid_column(column) && valid_row(row as int)) ==> {
                let q = pos_index(column_of(column), row - 1);
                if old(self).piece_at(q) is Some {
                    r == Err::<(), Error>(Error::Occupied) && *final(self) == *old(self)
                } else {
                    &&& r is Ok
                    &&& final(self).occupants@ == old(self).occupants@.update(
                        q,
                        Some(
                            Piece {
                                team: piece.team,
                                column: column_of(column) as u32,
                                row: (row - 1) as u32,
                                definition: piece.definition,
                            },
                        ),
                    )
                    &&& final(self).selected is None
                    &&& all_reset(final(self).spaces@)
                    &&& same_places(final(self).spaces@, old(self).spaces@)
                }
            },
    {
        let q = match Board::index_of(column, row) {
            Some(q) => q,
            None => {
                return Err(Error::InvalidPosition);
            },
        };
        if self.occupants[q].is_some() {
            return Err(Error::Occupied);
        }
        let x = column as u32 - 'a' as u32;
        let placed = Piece { team: piece.team, column: x, row: row - 1, definition: piece.definition };
        self.reset_all();
        self.selected = None;
        self.occupants.set(q, Some(placed));
        assert forall|a: int, b: int|
            in_bounds(a, b) && (#[trigger] self.occupants@[pos_index(a, b)]) is Some implies {
                let p = self.occupants@[pos_index(a, b)]->Some_0;
                p.column == a && p.row == b
            } by {
            if pos_index(a, b) != q {
                assert(old(self).occupants@[pos_index(a, b)] is Some);
            }
        }
        Ok(())
    }

    /// Takes the piece off the space at `column`, `row` and returns it, or `None`
    /// where the space is empty. Clears every flag and the selection.
    pub fn remove_piece(&mut self, column: char, row: u32) -> (r: Result<Option<Piece>, Error>)
        requires
            old(self).wf(),
        ensures
            final(self).wf(),
            !(valid_column(column) && valid_row(row as int)) ==> r is Err && r->Err_0
                == Error::InvalidPosition && *final(self) == *old(self),
            (valid_column(column) && valid_row(row as int)) ==> {
                let q = pos_index(column_of(column), row - 1);
                &&& r == Ok::<Option<Piece>, Error>(old(self).piece_at(q))
                &&& final(self).occupants@ == old(self).occupants@.update(q, None)
                &&& final(self).selected is None
                &&& all_reset(final(self).spaces@)
                &&& same_places(final(self).spaces@, old(self).spaces@)
            },
    {
        let q = match Board::index_of(column, row) {
            Some(q) => q,
            None => {
                return Err(Error::InvalidPosition);
            },
        };
        self.reset_all();
        self.selected = None;
        let taken = self.occupants.remove(q);
        self.occupants.insert(q, None);
        assert(self.occupants@ =~= old(self).occupants@.update(q as int, None));
        assert forall|a: int, b: int|
            in_bounds(a, b) && (#[trigger] self.occupants@[pos_index(a, b)]) is Some implies {
                let p = self.occupants@[pos_index(a, b)]->Some_0;
                p.column == a && p.row == b
            } by {
            assert(old(self).occupants@[pos_index(a, b)] is Some);
        }
        Ok(taken)
    }

    /// Moves the selected piece from `from` to `to`, a space marked for a move or
    /// a capture; a piece that stands on `to` is taken off the board. Every flag
    /// and the selection are cleared afterwards.
    pub fn move_piece(&mut self, from_column: char, from_row: u32, to_column: char, to_row: u32) -> (r:
        Result<(), Error>)
        requires
            old(self).wf(),
        ensures
            final(self).wf(),
            !(valid_column(from_column) && valid_row(from_row as int) && valid_column(to_column)
                && valid_row(to_row as int)) ==> r == Err::<(), Error>(Error::InvalidPosition)
                && *final(self) == *old(self),
            (valid_column(from_column) && valid_row(from_row as int) && valid_column(to_column)
                && valid_row(to_row as int)) ==> {
                let f = pos_index(column_of(from_column), from_row - 1);
                let t = pos_index(column_of(to_column), to_row - 1);
                match old(self).piece_at(f) {
                    None => r == Err::<(), Error>(Error::PieceNotFound) && *final(self) == *old(self),
                    Some(p) => if old(self).selected == Some(f as usize) && f != t && (move_flags(
                        old(self).spaces@,
                    ).contains(t) || kill_flags(old(self).spaces@).contains(t)) {
                        &&& r is Ok
                        &&& final(self).occupants@ == old(self).occupants@.update(f, None).update(
                            t,
                            Some(
                                Piece {
                                    team: p.team,
                                    column: column_of(to_column) as u32,
                                    row: (to_row - 1) as u32,
                                    definition: p.definition,
                                },
                            ),
                        )
                        &&& final(self).selected is None
                        &&& all_reset(final(self).spaces@)
                        &&& same_places(final(self).spaces@, old(self).spaces@)
                    } else {
                        r == Err::<(), Error>(Error::IllegalMove) && *final(self) == *old(self)
                    },
                }
            },
    {
        let f = match Board::index_of(from_column, from_row) {
            Some(q) => q,
            None => {
                return Err(Error::InvalidPosition);
            },
        };
        let t = match Board::index_of(to_column, to_row) {
            Some(q) => q,
            None => {
                return Err(Error::InvalidPosition);
            },
        };
        if self.occupants[f].is_none() {
            return Err(Error::PieceNotFound);
        }
        let marked = self.spaces[t].available_to_move || self.spaces[t].available_to_kill;
        assert(marked == (move_flags(self.spaces@).contains(t as int) || kill_flags(
            self.spaces@,
        ).contains(t as int)));
        if self.selected != Some(f) || f == t || !marked {
            return Err(Error::IllegalMove);
        }
        self.reset_all();
        self.selected = None;
        let taken = self.occupants.remove(f);
        self.occupants.insert(f, None);
        let moving = match taken {
            Some(p) => p,
            None => {
                return Err(Error::PieceNotFound);
            },
        };
        let x = to_column as u32 - 'a' as u32;
        let moved = Piece { team: moving.team, column: x, row: to_row - 1, definition: moving.definition };
        self.occupants.set(t, Some(moved));
        assert(self.occupants@ =~= old(self).occupants@.update(f as int, None).update(t as int, Some(moved)));
        assert forall|a: int, b: int|
            in_bounds(a, b) && (#[trigger] self.occupants@[pos_index(a, b)]) is Some implies {
                let p = self.occupants@[pos_index(a, b)]->Some_0;
                p.column == a && p.row == b
            } by {
            if pos_index(a, b) != t {
                assert(old(self).occupants@[pos_index(a, b)] is Some);
            }
        }
        Ok(())
    }
}

} // verus!
