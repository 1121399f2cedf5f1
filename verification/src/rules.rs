//! Specification of the movement rules: which destinations each piece
//! kind may reach on a given board, and what validating a proposed move
//! yields.

use vstd::prelude::*;

use crate::board::Board;
use crate::board::MoveResult;
use crate::board::Piece;
use crate::board::PieceType;
use crate::board::Player;

verus! {

/// A coordinate pair lies on the 10 x 9 grid.
pub open spec fn in_bounds(r: int, c: int) -> bool {
    0 <= r <= 9 && 0 <= c <= 8
}

/// The piece standing at (r, c).
pub open spec fn cell_at(b: Board, r: int, c: int) -> Piece {
    b.board[r][c]
}

/// The square at (r, c) holds no piece.
pub open spec fn vacant_at(b: Board, r: int, c: int) -> bool {
    cell_at(b, r, c).piecetype is Empty
}

/// Two side values denote the same actual player.
pub open spec fn same_side(a: Player, b: Player) -> bool {
    (a is Red && b is Red) || (a is Green && b is Green)
}

/// Two side values denote opposing actual players.
pub open spec fn opposing(a: Player, b: Player) -> bool {
    (a is Red && b is Green) || (a is Green && b is Red)
}

/// The square is on the grid and vacant.
pub open spec fn square_free(b: Board, r: int, c: int) -> bool {
    in_bounds(r, c) && vacant_at(b, r, c)
}

/// The square is on the grid and not occupied by a piece of `side`'s own
/// side, so a piece of `side` may land there (capturing whatever enemy
/// stands there).
pub open spec fn square_open_to(b: Board, side: Player, r: int, c: int) -> bool {
    in_bounds(r, c) && (vacant_at(b, r, c) || !same_side(cell_at(b, r, c).player, side))
}

/// x lies strictly between a and b (in either order).
pub open spec fn strictly_between(a: int, x: int, b: int) -> bool {
    (a < x < b) || (b < x < a)
}

/// Every square strictly between columns c1 and c2 of row r is vacant.
pub open spec fn row_clear(b: Board, r: int, c1: int, c2: int) -> bool {
    forall|c: int| strictly_between(c1, c, c2) ==> vacant_at(b, r, c)
}

/// Every square strictly between rows r1 and r2 of column c is vacant.
pub open spec fn col_clear(b: Board, c: int, r1: int, r2: int) -> bool {
    forall|r: int| strictly_between(r1, r, r2) ==> vacant_at(b, r, c)
}

/// Exactly one occupied square (the cannon's screen) stands strictly
/// between columns c1 and c2 of row r.
pub open spec fn row_one_screen(b: Board, r: int, c1: int, c2: int) -> bool {
    exists|s: int|
        strictly_between(c1, s, c2) && !vacant_at(b, r, s) && (forall|c: int|
            strictly_between(c1, c, c2) && c != s ==> vacant_at(b, r, c))
}

/// Exactly one occupied square stands strictly between rows r1 and r2 of
/// column c.
pub open spec fn col_one_screen(b: Board, c: int, r1: int, r2: int) -> bool {
    exists|s: int|
        strictly_between(r1, s, r2) && !vacant_at(b, s, c) && (forall|r: int|
            strictly_between(r1, r, r2) && r != s ==> vacant_at(b, r, c))
}

/// Chariot rule: slide along the row or column through vacant squares;
/// the first occupied square reached may be entered only as a capture of
/// an enemy piece.
pub open spec fn ju_ok(side: Player, b: Board, pr: int, pc: int, r: int, c: int) -> bool {
    in_bounds(r, c) && (vacant_at(b, r, c) || opposing(cell_at(b, r, c).player, side)) && (
        (r == pr && c != pc && row_clear(b, pr, pc, c))
        || (c == pc && r != pr && col_clear(b, pc, pr, r))
    )
}

/// Cannon rule: slide like a chariot onto vacant squares; capture an
/// enemy piece only over exactly one intervening screen piece.
pub open spec fn pao_ok(side: Player, b: Board, pr: int, pc: int, r: int, c: int) -> bool {
    in_bounds(r, c) && (
        (r == pr && c != pc && (
            (vacant_at(b, r, c) && row_clear(b, pr, pc, c))
            || (!vacant_at(b, r, c) && opposing(cell_at(b, r, c).player, side)
                && row_one_screen(b, pr, pc, c))
        ))
        || (c == pc && r != pr && (
            (vacant_at(b, r, c) && col_clear(b, pc, pr, r))
            || (!vacant_at(b, r, c) && opposing(cell_at(b, r, c).player, side)
                && col_one_screen(b, pc, pr, r))
        ))
    )
}

/// Horse rule: one orthogonal step (the leg, which must be vacant)
/// followed by one diagonal step outward.
pub open spec fn ma_ok(side: Player, b: Board, pr: int, pc: int, r: int, c: int) -> bool {
    square_open_to(b, side, r, c) && (
        (square_free(b, pr + 1, pc) && r == pr + 2 && (c == pc + 1 || c == pc - 1))
        || (square_free(b, pr - 1, pc) && r == pr - 2 && (c == pc + 1 || c == pc - 1))
        || (square_free(b, pr, pc + 1) && c == pc + 2 && (r == pr - 1 || r == pr + 1))
        || (square_free(b, pr, pc - 1) && c == pc - 2 && (r == pr - 1 || r == pr + 1))
    )
}

/// Advisor rule: one diagonal step within the palace, encoded against the
/// palace centre and corner squares of each side.
pub open spec fn shi_ok(side: Player, b: Board, pr: int, pc: int, r: int, c: int) -> bool {
    (side is Red && (
        ((pr == 7 || pr == 9) && (pc == 3 || pc == 5) && r == 8 && c == 4
            && square_open_to(b, side, 8, 4))
        || (pr == 8 && pc == 4 && (r == 9 || r == 7) && (c == 5 || c == 3)
            && square_open_to(b, side, r, c))
    ))
    || (side is Green && (
        ((pr == 0 || pr == 2) && (pc == 3 || pc == 5) && r == 1 && c == 4
            && square_open_to(b, side, 1, 4))
        || (pr == 1 && pc == 4 && (r == 2 || r == 0) && (c == 5 || c == 3)
            && square_open_to(b, side, r, c))
    ))
}

/// Elephant rule: exactly two diagonal steps, blocked when the single
/// intervening diagonal square (the elephant's eye) is occupied.
pub open spec fn xiang_ok(side: Player, b: Board, pr: int, pc: int, r: int, c: int) -> bool {
    (side is Red || side is Green) && square_open_to(b, side, r, c) && (
        (r == pr - 2 && c == pc - 2 && square_free(b, pr - 1, pc - 1))
        || (r == pr + 2 && c == pc + 2 && square_free(b, pr + 1, pc + 1))
        || (r == pr - 2 && c == pc + 2 && square_free(b, pr - 1, pc + 1))
        || (r == pr + 2 && c == pc - 2 && square_free(b, pr + 1, pc - 1))
    )
}

/// Soldier rule: one step toward the enemy side; after crossing the river
/// it also gains one step sideways, never backward.
pub open spec fn bing_ok(side: Player, b: Board, pr: int, pc: int, r: int, c: int) -> bool {
    square_open_to(b, side, r, c) && (
        (side is Red && (
            if pr <= 4 {
                (r == pr - 1 && c == pc) || (r == pr && (c == pc - 1 || c == pc + 1))
            } else {
                r == pr - 1 && c == pc
            }
        ))
        || (side is Green && (
            if pr >= 5 {
                (r == pr + 1 && c == pc) || (r == pr && (c == pc - 1 || c == pc + 1))
            } else {
                r == pr + 1 && c == pc
            }
        ))
    )
}

/// General rule: one orthogonal step, confined to the mover's palace
/// (rows 7-9 for Red, rows 0-2 for Green, columns 3-5 for both).
pub open spec fn shuai_ok(side: Player, b: Board, pr: int, pc: int, r: int, c: int) -> bool {
    ((r == pr + 1 && c == pc) || (r == pr - 1 && c == pc)
        || (r == pr && c == pc + 1) || (r == pr && c == pc - 1))
    && 3 <= c <= 5
    && ((side is Red && 7 <= r <= 9 && square_open_to(b, side, r, c))
        || (side is Green && 0 <= r <= 2 && square_open_to(b, side, r, c)))
}

/// The movement rule of piece `p` sitting at (pr, pc): may it reach
/// (r, c) on board `b`?
pub open spec fn move_ok(p: Piece, b: Board, pr: int, pc: int, r: int, c: int) -> bool {
    match p.piecetype {
        PieceType::Empty => false,
        PieceType::Ju => ju_ok(p.player, b, pr, pc, r, c),
        PieceType::Pao => pao_ok(p.player, b, pr, pc, r, c),
        PieceType::Ma => ma_ok(p.player, b, pr, pc, r, c),
        PieceType::Shi => shi_ok(p.player, b, pr, pc, r, c),
        PieceType::Xiang => xiang_ok(p.player, b, pr, pc, r, c),
        PieceType::Bing => bing_ok(p.player, b, pr, pc, r, c),
        PieceType::Shuai => shuai_ok(p.player, b, pr, pc, r, c),
    }
}

/// The piece at (pr, pc) has at least one legal destination.
pub open spec fn any_move(p: Piece, b: Board, pr: int, pc: int) -> bool {
    exists|r: int, c: int| move_ok(p, b, pr, pc, r, c)
}

/// The sequence of coordinate pairs holds (r, c).
pub open spec fn has_coord(s: Seq<[usize; 2]>, r: int, c: int) -> bool {
    exists|i: int| #![trigger s[i]] 0 <= i < s.len() && s[i][0] == r && s[i][1] == c
}

/// What validating a proposed move of `turn` from (fr, fc) to (tr, tc)
/// yields: Invalid when the source square is vacant, when the occupant is
/// the opponent's, or when the destination is not in the occupant's legal
/// destination set; the opponent wins when the mover's own general has no
/// destination at all; Valid otherwise.
pub open spec fn spec_verify(b: Board, turn: Player, fr: int, fc: int, tr: int, tc: int)
    -> MoveResult {
    let p = cell_at(b, fr, fc);
    if p.piecetype is Empty {
        MoveResult::Invalid
    } else if opposing(p.player, turn) {
        MoveResult::Invalid
    } else if p.piecetype is Shuai && p.player is Red && !any_move(p, b, fr, fc) {
        MoveResult::GreenWin
    } else if p.piecetype is Shuai && p.player is Green && !any_move(p, b, fr, fc) {
        MoveResult::RedWin
    } else if move_ok(p, b, fr, fc, tr, tc) {
        MoveResult::Valid
    } else {
        MoveResult::Invalid
    }
}

/// The no-side sentinel a square keeps after the piece of `p` leaves it.
pub open spec fn sentinel_of(p: Player) -> Player {
    match p {
        Player::Red => Player::NoneRed,
        Player::Green => Player::NoneGreen,
        other => other,
    }
}

/// The piece the canonical starting layout puts at (r, c): the mirrored
/// back ranks on rows 0 and 9, cannons on rows 2 and 7, soldiers on the
/// even columns of rows 3 and 6, vacant squares elsewhere.
pub open spec fn init_kind(r: int, c: int) -> PieceType {
    if r == 0 || r == 9 {
        if c == 0 || c == 8 {
            PieceType::Ju
        } else if c == 1 || c == 7 {
            PieceType::Ma
        } else if c == 2 || c == 6 {
            PieceType::Xiang
        } else if c == 3 || c == 5 {
            PieceType::Shi
        } else {
            PieceType::Shuai
        }
    } else if r == 2 || r == 7 {
        if c == 1 || c == 7 {
            PieceType::Pao
        } else {
            PieceType::Empty
        }
    } else if r == 3 || r == 6 {
        if c % 2 == 0 {
            PieceType::Bing
        } else {
            PieceType::Empty
        }
    } else {
        PieceType::Empty
    }
}

/// The starting occupant of (r, c): Green holds the top half of the
/// board, Red the bottom half; vacant squares carry the matching no-side
/// sentinel.
pub open spec fn init_piece(r: int, c: int) -> Piece {
    Piece {
        piecetype: init_kind(r, c),
        player: if init_kind(r, c) is Empty {
            if r <= 4 {
                Player::NoneGreen
            } else {
                Player::NoneRed
            }
        } else {
            if r <= 4 {
                Player::Green
            } else {
                Player::Red
            }
        },
    }
}

/// Concatenating two coordinate sequences holds exactly the coordinates
/// one of them holds.
pub proof fn lemma_has_coord_concat(s1: Seq<[usize; 2]>, s2: Seq<[usize; 2]>)
    ensures
        forall|r: int, c: int|
            has_coord(s1 + s2, r, c) <==> (has_coord(s1, r, c) || has_coord(s2, r, c)),
{
    assert forall|r: int, c: int|
        has_coord(s1 + s2, r, c) <==> (has_coord(s1, r, c) || has_coord(s2, r, c)) by {
        if has_coord(s1 + s2, r, c) {
            let i = choose|i: int|
                #![trigger (s1 + s2)[i]]
                0 <= i < (s1 + s2).len() && (s1 + s2)[i][0] == r && (s1 + s2)[i][1] == c;
            if i < s1.len() {
                assert((s1 + s2)[i] == s1[i]);
                assert(has_coord(s1, r, c));
            } else {
                assert((s1 + s2)[i] == s2[i - s1.len()]);
                assert(has_coord(s2, r, c));
            }
        }
        if has_coord(s1, r, c) {
            let i = choose|i: int|
                #![trigger s1[i]]
                0 <= i < s1.len() && s1[i][0] == r && s1[i][1] == c;
            assert((s1 + s2)[i] == s1[i]);
            assert(has_coord(s1 + s2, r, c));
        }
        if has_coord(s2, r, c) {
            let i = choose|i: int|
                #![trigger s2[i]]
                0 <= i < s2.len() && s2[i][0] == r && s2[i][1] == c;
            assert((s1 + s2)[i + s1.len()] == s2[i]);
            assert(has_coord(s1 + s2, r, c));
        }
    }
}

/// Appending one coordinate pair adds exactly that coordinate.
pub proof fn lemma_has_coord_push(s: Seq<[usize; 2]>, x: [usize; 2])
    ensures
        forall|r: int, c: int|
            has_coord(s.push(x), r, c) <==> (has_coord(s, r, c) || (x[0] == r && x[1] == c)),
{
    assert forall|r: int, c: int|
        has_coord(s.push(x), r, c) <==> (has_coord(s, r, c) || (x[0] == r && x[1] == c)) by {
        if has_coord(s.push(x), r, c) {
            let i = choose|i: int|
                #![trigger s.push(x)[i]]
                0 <= i < s.push(x).len() && s.push(x)[i][0] == r && s.push(x)[i][1] == c;
            if i < s.len() {
                assert(s.push(x)[i] == s[i]);
                assert(has_coord(s, r, c));
            } else {
                assert(s.push(x)[i] == x);
            }
        }
        if has_coord(s, r, c) {
            let i = choose|i: int|
                #![trigger s[i]]
                0 <= i < s.len() && s[i][0] == r && s[i][1] == c;
            assert(s.push(x)[i] == s[i]);
            assert(has_coord(s.push(x), r, c));
        }
        if x[0] == r && x[1] == c {
            assert(s.push(x)[s.len() as int] == x);
            assert(has_coord(s.push(x), r, c));
        }
    }
}

/// Every legal destination lies on the grid and differs from the source
/// square.
pub proof fn lemma_move_ok_in_bounds(p: Piece, b: Board, pr: int, pc: int, r: int, c: int)
    requires
        move_ok(p, b, pr, pc, r, c),
    ensures
        in_bounds(r, c),
        !(r == pr && c == pc),
{
}

/// No legal destination is held by a piece of the mover's own side.
pub proof fn lemma_move_ok_no_own_capture(p: Piece, b: Board, pr: int, pc: int, r: int, c: int)
    requires
        move_ok(p, b, pr, pc, r, c),
    ensures
        vacant_at(b, r, c) || !same_side(cell_at(b, r, c).player, p.player),
{
}

/// A chariot move never jumps: it stays on the source row or column and
/// every square strictly between source and destination is vacant.
pub proof fn lemma_ju_no_jump(side: Player, b: Board, pr: int, pc: int, r: int, c: int)
    requires
        ju_ok(side, b, pr, pc, r, c),
    ensures
        r == pr || c == pc,
        r == pr ==> row_clear(b, pr, pc, c),
        c == pc ==> col_clear(b, pc, pr, r),
{
}

/// A general move never jumps: it is a single orthogonal step.
pub proof fn lemma_shuai_single_step(side: Player, b: Board, pr: int, pc: int, r: int, c: int)
    requires
        shuai_ok(side, b, pr, pc, r, c),
    ensures
        (r == pr && (c == pc + 1 || c == pc - 1)) || (c == pc && (r == pr + 1 || r == pr - 1)),
{
}

/// A cannon capture (a move onto an occupied square) crosses exactly one
/// screen piece; a cannon move onto a vacant square crosses none.
pub proof fn lemma_pao_screen(side: Player, b: Board, pr: int, pc: int, r: int, c: int)
    requires
        pao_ok(side, b, pr, pc, r, c),
    ensures
        !vacant_at(b, r, c) && r == pr ==> row_one_screen(b, pr, pc, c),
        !vacant_at(b, r, c) && c == pc ==> col_one_screen(b, pc, pr, r),
        vacant_at(b, r, c) && r == pr ==> row_clear(b, pr, pc, c),
        vacant_at(b, r, c) && c == pc ==> col_clear(b, pc, pr, r),
{
    assert(r == pr || c == pc);
    if r == pr && c == pc {
        assert(false);
    }
}

/// A horse move is barred when its single orthogonal leg square is
/// occupied or off the grid, whatever stands on the destination.
pub proof fn lemma_ma_leg_blocked(side: Player, b: Board, pr: int, pc: int)
    ensures
        !square_free(b, pr + 1, pc) ==> !ma_ok(side, b, pr, pc, pr + 2, pc + 1)
            && !ma_ok(side, b, pr, pc, pr + 2, pc - 1),
        !square_free(b, pr - 1, pc) ==> !ma_ok(side, b, pr, pc, pr - 2, pc + 1)
            && !ma_ok(side, b, pr, pc, pr - 2, pc - 1),
        !square_free(b, pr, pc + 1) ==> !ma_ok(side, b, pr, pc, pr - 1, pc + 2)
            && !ma_ok(side, b, pr, pc, pr + 1, pc + 2),
        !square_free(b, pr, pc - 1) ==> !ma_ok(side, b, pr, pc, pr - 1, pc - 2)
            && !ma_ok(side, b, pr, pc, pr + 1, pc - 2),
{
}

} // verus!
