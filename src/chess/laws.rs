use vstd::prelude::*;

use crate::chess::board::{in_bounds, pos_index, ray_captures, ray_moves};
use crate::chess::loader::{
    end_moves_text, is_skipped, load_from, load_spec, move_rule_of, start_moves_text,
    start_name_text, LoadState,
};
use crate::chess::movement::MovementVector;
use crate::chess::text::{is_blank, trim, trim_end, trim_start};
use crate::chess::board::Piece;

verus! {

/// A single-step rule that only moves marks at most one space for a move: the
/// space one step away, when it is on the board and empty. It marks nothing
/// for a capture.
pub proof fn lemma_single_step_move_only(
    occ: Seq<Option<Piece>>,
    team: u32,
    v: MovementVector,
    x: int,
    y: int,
    fuel: nat,
)
    requires
        !v.sliding,
        v.can_move,
        !v.can_capture,
    ensures
        ray_moves(occ, v, x, y, fuel) == if fuel > 0 && in_bounds(x, y) && occ[pos_index(x, y)] is None {
            set![pos_index(x, y)]
        } else {
            Set::<int>::empty()
        },
        ray_captures(occ, team, v, x, y, fuel) == Set::<int>::empty(),
{
    if fuel > 0 && in_bounds(x, y) && occ[pos_index(x, y)] is Some {
        assert(ray_captures(occ, team, v, x, y, fuel) =~= Set::<int>::empty());
    }
}

/// A walk stops at the first occupied space: from an occupied space it marks
/// no move at all, and no capture but on that space.
pub proof fn lemma_walk_stops_at_occupied(
    occ: Seq<Option<Piece>>,
    team: u32,
    v: MovementVector,
    x: int,
    y: int,
    fuel: nat,
)
    requires
        in_bounds(x, y),
        occ[pos_index(x, y)] is Some,
    ensures
        ray_moves(occ, v, x, y, fuel) == Set::<int>::empty(),
        ray_captures(occ, team, v, x, y, fuel).subset_of(set![pos_index(x, y)]),
{
}

/// A sliding walk over an empty space marks it for a move (where the rule
/// moves) and goes on to the next space; it marks no capture there.
pub proof fn lemma_slide_over_empty(
    occ: Seq<Option<Piece>>,
    team: u32,
    v: MovementVector,
    x: int,
    y: int,
    fuel: nat,
)
    requires
        v.sliding,
        fuel > 0,
        in_bounds(x, y),
        occ[pos_index(x, y)] is None,
    ensures
        ray_moves(occ, v, x, y, fuel) == (if v.can_move {
            set![pos_index(x, y)]
        } else {
            Set::<int>::empty()
        }) + ray_moves(occ, v, x + v.delta_horizontal, y + v.delta_vertical, (fuel - 1) as nat),
        ray_captures(occ, team, v, x, y, fuel) == ray_captures(
            occ,
            team,
            v,
            x + v.delta_horizontal,
            y + v.delta_vertical,
            (fuel - 1) as nat,
        ),
{
}

/// The rules that the movement lines `lines[i..i + n]` write, in order.
pub open spec fn rules_of_lines(lines: Seq<Seq<char>>, i: int, n: int) -> Seq<MovementVector> {
    Seq::new(n as nat, |j: int| move_rule_of(trim(lines[i + j]))->Some_0)
}

proof fn lemma_moves_section(
    lines: Seq<Seq<char>>,
    i: int,
    n: int,
    name: Seq<char>,
    acc: Seq<MovementVector>,
)
    requires
        0 <= i,
        0 <= n,
        i + n < lines.len(),
        forall|j: int|
            i <= j < i + n ==> !is_skipped(#[trigger] trim(lines[j])) && trim(lines[j])
                != end_moves_text() && move_rule_of(trim(lines[j])) is Some,
        trim(lines[i + n]) == end_moves_text(),
    ensures
        load_from(lines, i, LoadState::Moves, name, acc) == Ok::<
            (Seq<char>, Seq<MovementVector>),
            int,
        >((name, acc + rules_of_lines(lines, i, n))),
    decreases n,
{
    if n == 0 {
        assert(acc + rules_of_lines(lines, i, n) =~= acc);
        assert(!is_skipped(end_moves_text()));
    } else {
        let t = trim(lines[i]);
        assert(!is_skipped(t));
        let m = move_rule_of(t)->Some_0;
        lemma_moves_section(lines, i + 1, n - 1, name, acc.push(m));
        assert(acc.push(m) + rules_of_lines(lines, i + 1, n - 1) =~= acc + rules_of_lines(
            lines,
            i,
            n,
        ));
    }
}

/// Loading a resource made of `start_name`, a name, `start_moves`, `n` movement
/// lines and `end_moves` yields that name and exactly `n` rules, one per line,
/// in the order of the lines.
pub proof fn lemma_load_round_trip(name: Seq<char>, move_lines: Seq<Seq<char>>)
    requires
        trim(name) == name,
        !is_skipped(name),
        forall|j: int|
            0 <= j < move_lines.len() ==> trim(#[trigger] move_lines[j]) == move_lines[j]
                && !is_skipped(move_lines[j]) && move_lines[j] != end_moves_text() && move_rule_of(
                move_lines[j],
            ) is Some,
    ensures
        load_spec(
            seq![start_name_text(), name, start_moves_text()] + move_lines + seq![end_moves_text()],
        ) == Ok::<(Seq<char>, Seq<MovementVector>), int>(
            (name, move_lines.map_values(|l: Seq<char>| move_rule_of(l)->Some_0)),
        ),
{
    let lines = seq![start_name_text(), name, start_moves_text()] + move_lines + seq![
        end_moves_text(),
    ];
    let n = move_lines.len() as int;
    assert(trim(start_name_text()) == start_name_text());
    assert(trim(start_moves_text()) == start_moves_text());
    assert(trim(end_moves_text()) == end_moves_text());
    assert(lines[0] == start_name_text());
    assert(lines[1] == name);
    assert(lines[2] == start_moves_text());
    assert(lines[3 + n] == end_moves_text());
    assert forall|j: int| 3 <= j < 3 + n implies !is_skipped(#[trigger] trim(lines[j])) && trim(
        lines[j],
    ) != end_moves_text() && move_rule_of(trim(lines[j])) is Some by {
        assert(lines[j] == move_lines[j - 3]);
    }
    lemma_moves_section(lines, 3, n, name, Seq::empty());
    let e = Seq::<MovementVector>::empty();
    assert(!is_skipped(trim(lines[2])));
    assert(load_from(lines, 2, LoadState::LookingForMoves, name, e) == load_from(
        lines,
        3,
        LoadState::Moves,
        name,
        e,
    ));
    assert(load_from(lines, 1, LoadState::Name, Seq::empty(), e) == load_from(
        lines,
        2,
        LoadState::LookingForMoves,
        name,
        e,
    ));
    assert(!is_skipped(trim(lines[0])));
    assert(load_spec(lines) == load_from(lines, 1, LoadState::Name, Seq::empty(), e));
    assert(Seq::<MovementVector>::empty() + rules_of_lines(lines, 3, n) =~= move_lines.map_values(
        |l: Seq<char>| move_rule_of(l)->Some_0,
    )) by {
        assert forall|j: int| 0 <= j < n implies lines[3 + j] == move_lines[j] by {}
    }
}

/// The coordinate `x` after `k` steps of `d`.
pub open spec fn step_from(x: int, d: int, k: nat) -> int
    decreases k,
{
    if k == 0 {
        x
    } else {
        step_from(x + d, d, (k - 1) as nat)
    }
}

/// The spaces of the first `k` steps of a walk of `(dh, dv)` that starts on `(x, y)`.
pub open spec fn path_before(x: int, y: int, dh: int, dv: int, k: nat) -> Set<int>
    decreases k,
{
    if k == 0 {
        Set::empty()
    } else {
        set![pos_index(x, y)] + path_before(x + dh, y + dv, dh, dv, (k - 1) as nat)
    }
}

/// The first `k` steps of a walk of `(dh, dv)` from `(x, y)` are on the board and empty.
pub open spec fn clear_steps(occ: Seq<Option<Piece>>, x: int, y: int, dh: int, dv: int, k: nat) -> bool
    decreases k,
{
    k == 0 || (in_bounds(x, y) && occ[pos_index(x, y)] is None && clear_steps(
        occ,
        x + dh,
        y + dv,
        dh,
        dv,
        (k - 1) as nat,
    ))
}

/// A walk stops at the first occupied space: where the first `k` spaces of a
/// walk are empty and the next one is occupied, every space that the walk
/// marks for a move lies among those `k`, and the only space it may mark for
/// a capture is the occupied one. Spaces beyond it are never marked.
pub proof fn lemma_walk_stops_at_first_occupied(
    occ: Seq<Option<Piece>>,
    team: u32,
    v: MovementVector,
    x: int,
    y: int,
    fuel: nat,
    k: nat,
)
    requires
        clear_steps(occ, x, y, v.delta_horizontal as int, v.delta_vertical as int, k),
        in_bounds(
            step_from(x, v.delta_horizontal as int, k),
            step_from(y, v.delta_vertical as int, k),
        ),
        occ[pos_index(
            step_from(x, v.delta_horizontal as int, k),
            step_from(y, v.delta_vertical as int, k),
        )] is Some,
    ensures
        ray_moves(occ, v, x, y, fuel).subset_of(
            path_before(x, y, v.delta_horizontal as int, v.delta_vertical as int, k),
        ),
        ray_captures(occ, team, v, x, y, fuel).subset_of(
            set![
                pos_index(
                    step_from(x, v.delta_horizontal as int, k),
                    step_from(y, v.delta_vertical as int, k),
                ),
            ],
        ),
    decreases k,
{
    let dh = v.delta_horizontal as int;
    let dv = v.delta_vertical as int;
    if k == 0 {
        lemma_walk_stops_at_occupied(occ, team, v, x, y, fuel);
    } else if fuel > 0 {
        lemma_walk_stops_at_first_occupied(occ, team, v, x + dh, y + dv, (fuel - 1) as nat, (k - 1) as nat);
    }
}

/// A sliding rule that moves marks every space of its walk up to the first
/// occupied one: where the first `k` spaces are on the board and empty, and
/// the walk has at least `k` steps of fuel, all of them are marked for a move.
pub proof fn lemma_slide_marks_clear_path(
    occ: Seq<Option<Piece>>,
    v: MovementVector,
    x: int,
    y: int,
    fuel: nat,
    k: nat,
)
    requires
        v.sliding,
        v.can_move,
        k <= fuel,
        clear_steps(occ, x, y, v.delta_horizontal as int, v.delta_vertical as int, k),
    ensures
        path_before(x, y, v.delta_horizontal as int, v.delta_vertical as int, k).subset_of(
            ray_moves(occ, v, x, y, fuel),
        ),
    decreases k,
{
    let dh = v.delta_horizontal as int;
    let dv = v.delta_vertical as int;
    if k > 0 {
        lemma_slide_marks_clear_path(occ, v, x + dh, y + dv, (fuel - 1) as nat, (k - 1) as nat);
    }
}

proof fn lemma_trim_start_suffix(s: Seq<char>)
    ensures
        trim_start(s).len() <= s.len(),
        trim_start(s) == s.subrange(s.len() - trim_start(s).len(), s.len() as int),
        trim_start(s).len() > 0 ==> !is_blank(trim_start(s)[0]),
    decreases s.len(),
{
    if s.len() > 0 && is_blank(s[0]) {
        lemma_trim_start_suffix(s.drop_first());
        let t = trim_start(s.drop_first());
        assert(s.drop_first().subrange(s.len() - 1 - t.len(), s.len() - 1) =~= s.subrange(
            s.len() - t.len(),
            s.len() as int,
        ));
    } else {
        assert(s.subrange(0, s.len() as int) =~= s);
    }
}

proof fn lemma_trim_end_prefix(s: Seq<char>)
    ensures
        trim_end(s).len() <= s.len(),
        trim_end(s) == s.subrange(0, trim_end(s).len() as int),
        trim_end(s).len() > 0 ==> !is_blank(trim_end(s).last()),
    decreases s.len(),
{
    if s.len() > 0 && is_blank(s.last()) {
        lemma_trim_end_prefix(s.drop_last());
        let t = trim_end(s.drop_last());
        assert(s.drop_last().subrange(0, t.len() as int) =~= s.subrange(0, t.len() as int));
    } else {
        assert(s.subrange(0, s.len() as int) =~= s);
    }
}

/// Trimming a trimmed line changes nothing.
pub proof fn lemma_trim_idempotent(s: Seq<char>)
    ensures
        trim(trim(s)) == trim(s),
{
    let a = trim_start(s);
    lemma_trim_start_suffix(s);
    lemma_trim_end_prefix(a);
    let b = trim_end(a);
    if b.len() > 0 {
        assert(b[0] == a[0]);
        assert(!is_blank(a[0]));
        assert(trim_start(b) == b);
        assert(!is_blank(b.last()));
    }
}

/// Whether the lines are read as they are or trimmed first, loading yields
/// the same outcome: leading and trailing blanks on a line never matter.
pub proof fn lemma_load_ignores_padding(
    lines: Seq<Seq<char>>,
    i: int,
    st: LoadState,
    name: Seq<char>,
    moves: Seq<MovementVector>,
)
    ensures
        load_from(lines, i, st, name, moves) == load_from(
            lines.map_values(|l: Seq<char>| trim(l)),
            i,
            st,
            name,
            moves,
        ),
    decreases lines.len() - i,
{
    let tl = lines.map_values(|l: Seq<char>| trim(l));
    if 0 <= i < lines.len() {
        lemma_trim_idempotent(lines[i]);
        assert(trim(tl[i]) == trim(lines[i]));
        let t = trim(lines[i]);
        lemma_load_ignores_padding(lines, i + 1, st, name, moves);
        lemma_load_ignores_padding(lines, i + 1, LoadState::Name, name, moves);
        lemma_load_ignores_padding(lines, i + 1, LoadState::LookingForMoves, t, moves);
        lemma_load_ignores_padding(lines, i + 1, LoadState::Moves, name, moves);
        if let Some(m) = move_rule_of(t) {
            lemma_load_ignores_padding(lines, i + 1, st, name, moves.push(m));
        }
    }
}

/// Two loads agree: both give the same name and rules, or both fail.
pub open spec fn same_outcome(
    a: Result<(Seq<char>, Seq<MovementVector>), int>,
    b: Result<(Seq<char>, Seq<MovementVector>), int>,
) -> bool {
    match (a, b) {
        (Ok(x), Ok(y)) => x == y,
        (Err(_), Err(_)) => true,
        _ => false,
    }
}

proof fn lemma_load_suffix(
    l1: Seq<Seq<char>>,
    i1: int,
    l2: Seq<Seq<char>>,
    i2: int,
    st: LoadState,
    name: Seq<char>,
    moves: Seq<MovementVector>,
)
    requires
        0 <= i1 <= l1.len(),
        0 <= i2 <= l2.len(),
        l1.subrange(i1, l1.len() as int) == l2.subrange(i2, l2.len() as int),
    ensures
        same_outcome(load_from(l1, i1, st, name, moves), load_from(l2, i2, st, name, moves)),
    decreases l1.len() - i1,
{
    if i1 < l1.len() {
        assert(l1[i1] == l1.subrange(i1, l1.len() as int)[0]);
        assert(l1.subrange(i1, l1.len() as int).len() == l2.subrange(i2, l2.len() as int).len());
        assert(l1.subrange(i1, l1.len() as int).len() == l1.len() - i1);
        assert(l2.subrange(i2, l2.len() as int).len() == l2.len() - i2);
        assert(i2 < l2.len());
        assert(l2[i2] == l2.subrange(i2, l2.len() as int)[0]);
        assert(l1.subrange(i1 + 1, l1.len() as int) =~= l1.subrange(i1, l1.len() as int).drop_first());
        assert(l2.subrange(i2 + 1, l2.len() as int) =~= l2.subrange(i2, l2.len() as int).drop_first());
        let t = trim(l1[i1]);
        lemma_load_suffix(l1, i1 + 1, l2, i2 + 1, st, name, moves);
        lemma_load_suffix(l1, i1 + 1, l2, i2 + 1, LoadState::Name, name, moves);
        lemma_load_suffix(l1, i1 + 1, l2, i2 + 1, LoadState::LookingForMoves, t, moves);
        lemma_load_suffix(l1, i1 + 1, l2, i2 + 1, LoadState::Moves, name, moves);
        if let Some(m) = move_rule_of(t) {
            lemma_load_suffix(l1, i1 + 1, l2, i2 + 1, st, name, moves.push(m));
        }
    } else {
        assert(l2.subrange(i2, l2.len() as int).len() == 0);
    }
}

proof fn lemma_load_without_line(
    lines: Seq<Seq<char>>,
    j: int,
    i: int,
    st: LoadState,
    name: Seq<char>,
    moves: Seq<MovementVector>,
)
    requires
        0 <= i <= j < lines.len(),
        is_skipped(trim(lines[j])),
    ensures
        same_outcome(
            load_from(lines, i, st, name, moves),
            load_from(lines.remove(j), i, st, name, moves),
        ),
    decreases j - i,
{
    let r = lines.remove(j);
    if i == j {
        assert(lines.subrange(j + 1, lines.len() as int) =~= r.subrange(j, r.len() as int));
        lemma_load_suffix(lines, j + 1, r, j, st, name, moves);
    } else {
        assert(r[i] == lines[i]);
        let t = trim(lines[i]);
        lemma_load_without_line(lines, j, i + 1, st, name, moves);
        lemma_load_without_line(lines, j, i + 1, LoadState::Name, name, moves);
        lemma_load_without_line(lines, j, i + 1, LoadState::LookingForMoves, t, moves);
        lemma_load_without_line(lines, j, i + 1, LoadState::Moves, name, moves);
        if let Some(m) = move_rule_of(t) {
            lemma_load_without_line(lines, j, i + 1, st, name, moves.push(m));
        }
    }
}

/// A blank line or a comment line, wherever it stands in a resource, changes
/// nothing of what loading yields: with or without it, the load gives the same
/// name and rules, or fails.
pub proof fn lemma_load_ignores_skipped_line(lines: Seq<Seq<char>>, j: int)
    requires
        0 <= j < lines.len(),
        is_skipped(trim(lines[j])),
    ensures
        same_outcome(load_spec(lines), load_spec(lines.remove(j))),
{
    lemma_load_without_line(lines, j, 0, LoadState::Start, Seq::empty(), Seq::empty());
}

/// Number of spaces that hold a piece.
pub open spec fn piece_count(occ: Seq<Option<Piece>>) -> int
    decreases occ.len(),
{
    if occ.len() == 0 {
        0
    } else {
        piece_count(occ.drop_last()) + if occ.last() is Some {
            1int
        } else {
            0int
        }
    }
}

proof fn lemma_count_update(occ: Seq<Option<Piece>>, i: int, v: Option<Piece>)
    requires
        0 <= i < occ.len(),
    ensures
        piece_count(occ.update(i, v)) == piece_count(occ) - (if occ[i] is Some {
            1int
        } else {
            0int
        }) + (if v is Some {
            1int
        } else {
            0int
        }),
    decreases occ.len(),
{
    let u = occ.update(i, v);
    if i == occ.len() - 1 {
        assert(u.drop_last() =~= occ.drop_last());
    } else {
        assert(u.drop_last() =~= occ.drop_last().update(i, v));
        lemma_count_update(occ.drop_last(), i, v);
    }
}

/// A capture, as `Board::move_piece` performs it (the source emptied, the
/// mover put on the target in place of the piece there), leaves one piece
/// fewer on the board.
pub proof fn lemma_capture_removes_one(occ: Seq<Option<Piece>>, from: int, to: int, moved: Piece)
    requires
        0 <= from < occ.len(),
        0 <= to < occ.len(),
        from != to,
        occ[from] is Some,
        occ[to] is Some,
    ensures
        piece_count(occ.update(from, None).update(to, Some(moved))) == piece_count(occ) - 1,
{
    lemma_count_update(occ, from, None);
    lemma_count_update(occ.update(from, None), to, Some(moved));
}

} // verus!
