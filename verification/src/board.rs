//! Board and piece data model.

use vstd::prelude::*;

use crate::rules::any_move;
use crate::rules::bing_ok;
use crate::rules::cell_at;
use crate::rules::init_piece;
use crate::rules::lemma_move_ok_in_bounds;
use crate::rules::lemma_move_ok_no_own_capture;
use crate::rules::move_ok;
use crate::rules::same_side;
use crate::rules::sentinel_of;
use crate::rules::spec_verify;
use crate::rules::col_clear;
use crate::rules::has_coord;
use crate::rules::lemma_has_coord_concat;
use crate::rules::lemma_has_coord_push;
use crate::rules::ma_ok;
use crate::rules::shi_ok;
use crate::rules::shuai_ok;
use crate::rules::xiang_ok;
use crate::rules::in_bounds;
use crate::rules::ju_ok;
use crate::rules::col_one_screen;
use crate::rules::opposing;
use crate::rules::pao_ok;
use crate::rules::row_clear;
use crate::rules::row_one_screen;
use crate::rules::square_free;
use crate::rules::square_open_to;
use crate::rules::strictly_between;
use crate::rules::vacant_at;

verus! {

/// The kind of piece standing on a square; `Empty` marks a vacant square.
#[derive(Copy, Clone, PartialEq, Eq, Structural, Debug)]
pub enum PieceType {
    Empty,
    Shuai,
    Shi,
    Xiang,
    Ma,
    Ju,
    Pao,
    Bing,
}

/// Outcome of validating (and possibly applying) a proposed move.
#[derive(Copy, Clone, PartialEq, Eq, Structural, Debug)]
pub enum MoveResult {
    Valid,
    Invalid,
    RedWin,
    GreenWin,
}

/// The owner of a piece. `NoneRed` and `NoneGreen` are the no-side
/// sentinels carried by vacant squares.
#[derive(Copy, Clone, PartialEq, Eq, Structural, Debug)]
pub enum Player {
    NoneRed,
    NoneGreen,
    Red,
    Green,
}

/// One square's occupant: a piece kind together with its owning side.
#[derive(Copy, Clone, PartialEq, Eq, Structural, Debug)]
pub struct Piece {
    pub piecetype: PieceType,
    pub player: Player,
}

/// The playing field: 10 rows by 9 columns of squares.
pub struct Board {
    pub board: [[Piece; 9]; 10],
}

impl Piece {
    pub fn new(piecetype: PieceType, player: Player) -> (p: Piece)
        ensures
            p.piecetype == piecetype,
            p.player == player,
    {
        Piece { piecetype, player }
    }

    /// The square (row, col) is on the grid and vacant.
    pub fn vacant(&self, board: &Board, row: usize, col: usize) -> (b: bool)
        ensures
            b == square_free(*board, row as int, col as int),
    {
        if row <= 9 && col <= 8 {
            match board.board[row][col].piecetype {
                PieceType::Empty => true,
                _ => false,
            }
        } else {
            false
        }
    }

    /// The square (row, col) is on the grid and not occupied by a piece
    /// of this piece's own side, so this piece may land there.
    pub fn allowed(&self, board: &Board, row: usize, col: usize) -> (b: bool)
        ensures
            b == square_open_to(*board, self.player, row as int, col as int),
    {
        if row <= 9 && col <= 8 {
            match board.board[row][col].piecetype {
                PieceType::Empty => true,
                _ => match (board.board[row][col].player, self.player) {
                    (Player::Red, Player::Red) | (Player::Green, Player::Green) => false,
                    _ => true,
                },
            }
        } else {
            false
        }
    }
}

/// The square (r, c) is vacant; bounds are assumed, not checked.
fn cell_is_vacant(board: &Board, r: usize, c: usize) -> (b: bool)
    requires
        r <= 9,
        c <= 8,
    ensures
        b == vacant_at(*board, r as int, c as int),
{
    match board.board[r][c].piecetype {
        PieceType::Empty => true,
        _ => false,
    }
}

/// The square (r, c) is held by a piece opposing `side`; bounds are
/// assumed, not checked.
fn cell_is_enemy(board: &Board, r: usize, c: usize, side: Player) -> (b: bool)
    requires
        r <= 9,
        c <= 8,
    ensures
        b == opposing(cell_at(*board, r as int, c as int).player, side),
{
    match (board.board[r][c].player, side) {
        (Player::Red, Player::Green) | (Player::Green, Player::Red) => true,
        _ => false,
    }
}

/// Chariot scan toward higher columns.
fn scan_ju_right(side: Player, board: &Board, prow: usize, pcol: usize) -> (v: Vec<[usize; 2]>)
    requires
        prow <= 9,
        pcol <= 8,
    ensures
        forall|r: int, c: int|
            has_coord(v@, r, c) <==> (r == prow as int && c > pcol as int
                && ju_ok(side, *board, prow as int, pcol as int, r, c)),
{
    let mut v: Vec<[usize; 2]> = Vec::new();
    let mut col: usize = pcol + 1;
    loop
        invariant
            prow <= 9,
            pcol <= 8,
            pcol < col <= 9,
            v@.len() == col - pcol - 1,
            forall|i: int|
                #![trigger v@[i]]
                0 <= i < v@.len() ==> v@[i][0] == prow && v@[i][1] as int == pcol + 1 + i,
            forall|cc: int| pcol as int + 1 <= cc < col as int ==> vacant_at(*board, prow as int, cc),
        ensures
            pcol < col <= 9,
            v@.len() == col - pcol - 1,
            forall|i: int|
                #![trigger v@[i]]
                0 <= i < v@.len() ==> v@[i][0] == prow && v@[i][1] as int == pcol + 1 + i,
            forall|cc: int| pcol as int + 1 <= cc < col as int ==> vacant_at(*board, prow as int, cc),
            col <= 8 ==> !vacant_at(*board, prow as int, col as int),
        decreases 10 - col,
    {
        if col > 8 {
            break;
        }
        if !cell_is_vacant(board, prow, col) {
            break;
        }
        v.push([prow, col]);
        col = col + 1;
    }
    let ghost vrun = v@;
    if col <= 8 && cell_is_enemy(board, prow, col, side) {
        v.push([prow, col]);
    }
    proof {
        let bb = *board;
        let pr = prow as int;
        let q = pcol as int;
        let stop = col as int;
        assert forall|r: int, c: int|
            has_coord(v@, r, c) <==> (r == pr && q < c && ju_ok(side, bb, pr, q, r, c)) by {
            if has_coord(v@, r, c) {
                let i = choose|i: int|
                    #![trigger v@[i]]
                    0 <= i < v@.len() && v@[i][0] == r && v@[i][1] == c;
                if i < vrun.len() {
                    assert(v@[i] == vrun[i]);
                    assert(r == pr && c == q + 1 + i);
                    assert(vacant_at(bb, pr, c));
                    assert(row_clear(bb, pr, q, c));
                } else {
                    assert(c == stop && r == pr);
                    assert(opposing(cell_at(bb, pr, c).player, side));
                    assert(row_clear(bb, pr, q, c));
                }
                assert(ju_ok(side, bb, pr, q, r, c));
            }
            if r == pr && q < c && ju_ok(side, bb, pr, q, r, c) {
                if c < stop {
                    assert(vrun[c - q - 1][1] as int == c && vrun[c - q - 1][0] == prow);
                    assert(v@[c - q - 1] == vrun[c - q - 1]);
                    assert(has_coord(v@, r, c));
                } else if c == stop {
                    assert(!vacant_at(bb, pr, c));
                    assert(opposing(cell_at(bb, pr, c).player, side));
                    assert(v@.len() == vrun.len() + 1);
                    assert(v@[vrun.len() as int][0] == prow && v@[vrun.len() as int][1] == col);
                    assert(has_coord(v@, r, c));
                } else {
                    assert(stop <= 8 && !vacant_at(bb, pr, stop));
                    assert(strictly_between(q, stop, c));
                    assert(!row_clear(bb, pr, q, c));
                    assert(false);
                }
            }
        }
    }
    v
}

/// Chariot scan toward lower columns.
fn scan_ju_left(side: Player, board: &Board, prow: usize, pcol: usize) -> (v: Vec<[usize; 2]>)
    requires
        prow <= 9,
        pcol <= 8,
    ensures
        forall|r: int, c: int|
            has_coord(v@, r, c) <==> (r == prow as int && c < pcol as int
                && ju_ok(side, *board, prow as int, pcol as int, r, c)),
{
    let mut v: Vec<[usize; 2]> = Vec::new();
    let mut col: usize = pcol;
    loop
        invariant
            prow <= 9,
            pcol <= 8,
            col <= pcol,
            v@.len() == pcol - col,
            forall|i: int|
                #![trigger v@[i]]
                0 <= i < v@.len() ==> v@[i][0] == prow && v@[i][1] as int == pcol - 1 - i,
            forall|cc: int| col as int <= cc < pcol as int ==> vacant_at(*board, prow as int, cc),
        ensures
            col <= pcol,
            v@.len() == pcol - col,
            forall|i: int|
                #![trigger v@[i]]
                0 <= i < v@.len() ==> v@[i][0] == prow && v@[i][1] as int == pcol - 1 - i,
            forall|cc: int| col as int <= cc < pcol as int ==> vacant_at(*board, prow as int, cc),
            col >= 1 ==> !vacant_at(*board, prow as int, col as int - 1),
        decreases col,
    {
        if col == 0 {
            break;
        }
        if !cell_is_vacant(board, prow, col - 1) {
            break;
        }
        v.push([prow, col - 1]);
        col = col - 1;
    }
    let ghost vrun = v@;
    if col >= 1 && cell_is_enemy(board, prow, col - 1, side) {
        v.push([prow, col - 1]);
    }
    proof {
        let bb = *board;
        let pr = prow as int;
        let q = pcol as int;
        let stop = col as int;
        assert forall|r: int, c: int|
            has_coord(v@, r, c) <==> (r == pr && c < q && ju_ok(side, bb, pr, q, r, c)) by {
            if has_coord(v@, r, c) {
                let i = choose|i: int|
                    #![trigger v@[i]]
                    0 <= i < v@.len() && v@[i][0] == r && v@[i][1] == c;
                if i < vrun.len() {
                    assert(v@[i] == vrun[i]);
                    assert(r == pr && c == q - 1 - i);
                    assert(vacant_at(bb, pr, c));
                    assert(row_clear(bb, pr, q, c));
                } else {
                    assert(c == stop - 1 && r == pr);
                    assert(opposing(cell_at(bb, pr, c).player, side));
                    assert(row_clear(bb, pr, q, c));
                }
                assert(ju_ok(side, bb, pr, q, r, c));
            }
            if r == pr && c < q && ju_ok(side, bb, pr, q, r, c) {
                if c >= stop {
                    assert(vrun[q - 1 - c][1] as int == c && vrun[q - 1 - c][0] == prow);
                    assert(v@[q - 1 - c] == vrun[q - 1 - c]);
                    assert(has_coord(v@, r, c));
                } else if c == stop - 1 {
                    assert(!vacant_at(bb, pr, c));
                    assert(opposing(cell_at(bb, pr, c).player, side));
                    assert(v@.len() == vrun.len() + 1);
                    assert(v@[vrun.len() as int][0] == prow
                        && v@[vrun.len() as int][1] as int == stop - 1);
                    assert(has_coord(v@, r, c));
                } else {
                    assert(stop >= 1 && !vacant_at(bb, pr, stop - 1));
                    assert(strictly_between(c, stop - 1, q));
                    assert(!row_clear(bb, pr, q, c));
                    assert(false);
                }
            }
        }
    }
    v
}

/// Chariot scan toward higher rows.
fn scan_ju_down(side: Player, board: &Board, prow: usize, pcol: usize) -> (v: Vec<[usize; 2]>)
    requires
        prow <= 9,
        pcol <= 8,
    ensures
        forall|r: int, c: int|
            has_coord(v@, r, c) <==> (c == pcol as int && r > prow as int
                && ju_ok(side, *board, prow as int, pcol as int, r, c)),
{
    let mut v: Vec<[usize; 2]> = Vec::new();
    let mut row: usize = prow + 1;
    loop
        invariant
            prow <= 9,
            pcol <= 8,
            prow < row <= 10,
            v@.len() == row - prow - 1,
            forall|i: int|
                #![trigger v@[i]]
                0 <= i < v@.len() ==> v@[i][1] == pcol && v@[i][0] as int == prow + 1 + i,
            forall|rr: int| prow as int + 1 <= rr < row as int ==> vacant_at(*board, rr, pcol as int),
        ensures
            prow < row <= 10,
            v@.len() == row - prow - 1,
            forall|i: int|
                #![trigger v@[i]]
                0 <= i < v@.len() ==> v@[i][1] == pcol && v@[i][0] as int == prow + 1 + i,
            forall|rr: int| prow as int + 1 <= rr < row as int ==> vacant_at(*board, rr, pcol as int),
            row <= 9 ==> !vacant_at(*board, row as int, pcol as int),
        decreases 11 - row,
    {
        if row > 9 {
            break;
        }
        if !cell_is_vacant(board, row, pcol) {
            break;
        }
        v.push([row, pcol]);
        row = row + 1;
    }
    let ghost vrun = v@;
    if row <= 9 && cell_is_enemy(board, row, pcol, side) {
        v.push([row, pcol]);
    }
    proof {
        let bb = *board;
        let pr = prow as int;
        let q = pcol as int;
        let stop = row as int;
        assert forall|r: int, c: int|
            has_coord(v@, r, c) <==> (c == q && r > pr && ju_ok(side, bb, pr, q, r, c)) by {
            if has_coord(v@, r, c) {
                let i = choose|i: int|
                    #![trigger v@[i]]
                    0 <= i < v@.len() && v@[i][0] == r && v@[i][1] == c;
                if i < vrun.len() {
                    assert(v@[i] == vrun[i]);
                    assert(c == q && r == pr + 1 + i);
                    assert(vacant_at(bb, r, q));
                    assert(col_clear(bb, q, pr, r));
                } else {
                    assert(r == stop && c == q);
                    assert(opposing(cell_at(bb, r, q).player, side));
                    assert(col_clear(bb, q, pr, r));
                }
                assert(ju_ok(side, bb, pr, q, r, c));
            }
            if c == q && r > pr && ju_ok(side, bb, pr, q, r, c) {
                if r < stop {
                    assert(vrun[r - pr - 1][0] as int == r && vrun[r - pr - 1][1] == pcol);
                    assert(v@[r - pr - 1] == vrun[r - pr - 1]);
                    assert(has_coord(v@, r, c));
                } else if r == stop {
                    assert(!vacant_at(bb, r, q));
                    assert(opposing(cell_at(bb, r, q).player, side));
                    assert(v@.len() == vrun.len() + 1);
                    assert(v@[vrun.len() as int][1] == pcol && v@[vrun.len() as int][0] == row);
                    assert(has_coord(v@, r, c));
                } else {
                    assert(stop <= 9 && !vacant_at(bb, stop, q));
                    assert(strictly_between(pr, stop, r));
                    assert(!col_clear(bb, q, pr, r));
                    assert(false);
                }
            }
        }
    }
    v
}

/// Chariot scan toward lower rows.
fn scan_ju_up(side: Player, board: &Board, prow: usize, pcol: usize) -> (v: Vec<[usize; 2]>)
    requires
        prow <= 9,
        pcol <= 8,
    ensures
        forall|r: int, c: int|
            has_coord(v@, r, c) <==> (c == pcol as int && r < prow as int
                && ju_ok(side, *board, prow as int, pcol as int, r, c)),
{
    let mut v: Vec<[usize; 2]> = Vec::new();
    let mut row: usize = prow;
    loop
        invariant
            prow <= 9,
            pcol <= 8,
            row <= prow,
            v@.len() == prow - row,
            forall|i: int|
                #![trigger v@[i]]
                0 <= i < v@.len() ==> v@[i][1] == pcol && v@[i][0] as int == prow - 1 - i,
            forall|rr: int| row as int <= rr < prow as int ==> vacant_at(*board, rr, pcol as int),
        ensures
            row <= prow,
            v@.len() == prow - row,
            forall|i: int|
                #![trigger v@[i]]
                0 <= i < v@.len() ==> v@[i][1] == pcol && v@[i][0] as int == prow - 1 - i,
            forall|rr: int| row as int <= rr < prow as int ==> vacant_at(*board, rr, pcol as int),
            row >= 1 ==> !vacant_at(*board, row as int - 1, pcol as int),
        decreases row,
    {
        if row == 0 {
            break;
        }
        if !cell_is_vacant(board, row - 1, pcol) {
            break;
        }
        v.push([row - 1, pcol]);
        row = row - 1;
    }
    let ghost vrun = v@;
    if row >= 1 && cell_is_enemy(board, row - 1, pcol, side) {
        v.push([row - 1, pcol]);
    }
    proof {
        let bb = *board;
        let pr = prow as int;
        let q = pcol as int;
        let stop = row as int;
        assert forall|r: int, c: int|
            has_coord(v@, r, c) <==> (c == q && r < pr && ju_ok(side, bb, pr, q, r, c)) by {
            if has_coord(v@, r, c) {
                let i = choose|i: int|
                    #![trigger v@[i]]
                    0 <= i < v@.len() && v@[i][0] == r && v@[i][1] == c;
                if i < vrun.len() {
                    assert(v@[i] == vrun[i]);
                    assert(c == q && r == pr - 1 - i);
                    assert(vacant_at(bb, r, q));
                    assert(col_clear(bb, q, pr, r));
                } else {
                    assert(r == stop - 1 && c == q);
                    assert(opposing(cell_at(bb, r, q).player, side));
                    assert(col_clear(bb, q, pr, r));
                }
                assert(ju_ok(side, bb, pr, q, r, c));
            }
            if c == q && r < pr && ju_ok(side, bb, pr, q, r, c) {
                if r >= stop {
                    assert(vrun[pr - 1 - r][0] as int == r && vrun[pr - 1 - r][1] == pcol);
                    assert(v@[pr - 1 - r] == vrun[pr - 1 - r]);
                    assert(has_coord(v@, r, c));
                } else if r == stop - 1 {
                    assert(!vacant_at(bb, r, q));
                    assert(opposing(cell_at(bb, r, q).player, side));
                    assert(v@.len() == vrun.len() + 1);
                    assert(v@[vrun.len() as int][1] == pcol
                        && v@[vrun.len() as int][0] as int == stop - 1);
                    assert(has_coord(v@, r, c));
                } else {
                    assert(stop >= 1 && !vacant_at(bb, stop - 1, q));
                    assert(strictly_between(r, stop - 1, pr));
                    assert(!col_clear(bb, q, pr, r));
                    assert(false);
                }
            }
        }
    }
    v
}

/// All chariot destinations: the four sliding scans combined.
fn ju_moves(side: Player, board: &Board, prow: usize, pcol: usize) -> (v: Vec<[usize; 2]>)
    requires
        prow <= 9,
        pcol <= 8,
    ensures
        forall|r: int, c: int|
            has_coord(v@, r, c) <==> ju_ok(side, *board, prow as int, pcol as int, r, c),
{
    let mut v = scan_ju_right(side, board, prow, pcol);
    let ghost s1 = v@;
    let mut part = scan_ju_left(side, board, prow, pcol);
    let ghost s2 = part@;
    v.append(&mut part);
    let mut part = scan_ju_down(side, board, prow, pcol);
    let ghost s3 = part@;
    v.append(&mut part);
    let mut part = scan_ju_up(side, board, prow, pcol);
    let ghost s4 = part@;
    v.append(&mut part);
    proof {
        lemma_has_coord_concat(s1, s2);
        lemma_has_coord_concat(s1 + s2, s3);
        lemma_has_coord_concat(s1 + s2 + s3, s4);
        assert(v@ == s1 + s2 + s3 + s4);
        let bb = *board;
        let pr = prow as int;
        let q = pcol as int;
        assert forall|r: int, c: int|
            has_coord(v@, r, c) <==> ju_ok(side, bb, pr, q, r, c) by {
            assert(has_coord(v@, r, c) <==> (has_coord(s1, r, c) || has_coord(s2, r, c)
                || has_coord(s3, r, c) || has_coord(s4, r, c)));
            if ju_ok(side, bb, pr, q, r, c) {
                assert((r == pr && c != q) || (c == q && r != pr));
            }
        }
    }
    v
}

/// Cannon scan toward higher columns.
fn scan_pao_right(side: Player, board: &Board, prow: usize, pcol: usize) -> (v: Vec<[usize; 2]>)
    requires
        prow <= 9,
        pcol <= 8,
    ensures
        forall|r: int, c: int|
            has_coord(v@, r, c) <==> (r == prow as int && c > pcol as int
                && pao_ok(side, *board, prow as int, pcol as int, r, c)),
{
    let mut v: Vec<[usize; 2]> = Vec::new();
    let mut col: usize = pcol + 1;
    loop
        invariant
            prow <= 9,
            pcol <= 8,
            pcol < col <= 9,
            v@.len() == col - pcol - 1,
            forall|i: int|
                #![trigger v@[i]]
                0 <= i < v@.len() ==> v@[i][0] == prow && v@[i][1] as int == pcol + 1 + i,
            forall|cc: int| pcol as int + 1 <= cc < col as int ==> vacant_at(*board, prow as int, cc),
        ensures
            pcol < col <= 9,
            v@.len() == col - pcol - 1,
            forall|i: int|
                #![trigger v@[i]]
                0 <= i < v@.len() ==> v@[i][0] == prow && v@[i][1] as int == pcol + 1 + i,
            forall|cc: int| pcol as int + 1 <= cc < col as int ==> vacant_at(*board, prow as int, cc),
            col <= 8 ==> !vacant_at(*board, prow as int, col as int),
        decreases 10 - col,
    {
        if col > 8 {
            break;
        }
        if !cell_is_vacant(board, prow, col) {
            break;
        }
        v.push([prow, col]);
        col = col + 1;
    }
    let ghost vrun = v@;
    let ghost bb = *board;
    let ghost pr = prow as int;
    let ghost q = pcol as int;
    if col <= 8 {
        // (prow, col) holds the screen; look for a capture beyond it.
        let ghost s = col as int;
        let mut col2: usize = col + 1;
        loop
            invariant
                prow <= 9,
                pcol <= 8,
                col <= 8,
                col < col2 <= 9,
                forall|cc: int| col as int + 1 <= cc < col2 as int
                    ==> vacant_at(*board, prow as int, cc),
            ensures
                col < col2 <= 9,
                forall|cc: int| col as int + 1 <= cc < col2 as int
                    ==> vacant_at(*board, prow as int, cc),
                col2 <= 8 ==> !vacant_at(*board, prow as int, col2 as int),
            decreases 10 - col2,
        {
            if col2 > 8 {
                break;
            }
            if !cell_is_vacant(board, prow, col2) {
                break;
            }
            col2 = col2 + 1;
        }
        if col2 <= 8 && cell_is_enemy(board, prow, col2, side) {
            v.push([prow, col2]);
        }
        proof {
            let t = col2 as int;
            assert forall|r: int, c: int|
                has_coord(v@, r, c) <==> (r == pr && c > q && pao_ok(side, bb, pr, q, r, c)) by {
                if has_coord(v@, r, c) {
                    let i = choose|i: int|
                        #![trigger v@[i]]
                        0 <= i < v@.len() && v@[i][0] == r && v@[i][1] == c;
                    if i < vrun.len() {
                        assert(v@[i] == vrun[i]);
                        assert(r == pr && c == q + 1 + i);
                        assert(vacant_at(bb, pr, c));
                        assert(row_clear(bb, pr, q, c));
                    } else {
                        assert(r == pr && c == t);
                        assert(t <= 8 && !vacant_at(bb, pr, t));
                        assert(opposing(cell_at(bb, pr, t).player, side));
                        assert(strictly_between(q, s, t) && !vacant_at(bb, pr, s));
                        assert(forall|cc: int|
                            strictly_between(q, cc, t) && cc != s ==> vacant_at(bb, pr, cc));
                        assert(row_one_screen(bb, pr, q, t));
                    }
                    assert(pao_ok(side, bb, pr, q, r, c));
                }
                if r == pr && c > q && pao_ok(side, bb, pr, q, r, c) {
                    if c < s {
                        assert(vrun[c - q - 1][1] as int == c && vrun[c - q - 1][0] == prow);
                        assert(v@[c - q - 1] == vrun[c - q - 1]);
                        assert(has_coord(v@, r, c));
                    } else if c == s {
                        assert(!vacant_at(bb, pr, c));
                        assert(row_one_screen(bb, pr, q, s));
                        let s2 = choose|s2: int|
                            strictly_between(q, s2, s) && !vacant_at(bb, pr, s2) && (forall|cc: int|
                                strictly_between(q, cc, s) && cc != s2 ==> vacant_at(bb, pr, cc));
                        assert(vacant_at(bb, pr, s2));
                        assert(false);
                    } else if c < t {
                        assert(vacant_at(bb, pr, c));
                        assert(strictly_between(q, s, c) && !vacant_at(bb, pr, s));
                        assert(!row_clear(bb, pr, q, c));
                        assert(false);
                    } else if c == t {
                        assert(t <= 8 && !vacant_at(bb, pr, t));
                        assert(opposing(cell_at(bb, pr, t).player, side));
                        assert(v@.len() == vrun.len() + 1);
                        assert(v@[vrun.len() as int][0] == prow && v@[vrun.len() as int][1] == col2);
                        assert(has_coord(v@, r, c));
                    } else {
                        assert(strictly_between(q, s, c) && !vacant_at(bb, pr, s));
                        assert(!row_clear(bb, pr, q, c));
                        assert(!vacant_at(bb, pr, c) && row_one_screen(bb, pr, q, c));
                        let s2 = choose|s2: int|
                            strictly_between(q, s2, c) && !vacant_at(bb, pr, s2) && (forall|cc: int|
                                strictly_between(q, cc, c) && cc != s2 ==> vacant_at(bb, pr, cc));
                        assert(strictly_between(q, t, c) && !vacant_at(bb, pr, t));
                        if s2 == s {
                            assert(vacant_at(bb, pr, t));
                        } else {
                            assert(vacant_at(bb, pr, s));
                        }
                        assert(false);
                    }
                }
            }
        }
    } else {
        proof {
            assert forall|r: int, c: int|
                has_coord(v@, r, c) <==> (r == pr && c > q && pao_ok(side, bb, pr, q, r, c)) by {
                if has_coord(v@, r, c) {
                    let i = choose|i: int|
                        #![trigger v@[i]]
                        0 <= i < v@.len() && v@[i][0] == r && v@[i][1] == c;
                    assert(v@[i] == vrun[i]);
                    assert(r == pr && c == q + 1 + i);
                    assert(vacant_at(bb, pr, c));
                    assert(row_clear(bb, pr, q, c));
                    assert(pao_ok(side, bb, pr, q, r, c));
                }
                if r == pr && c > q && pao_ok(side, bb, pr, q, r, c) {
                    assert(vacant_at(bb, pr, c));
                    assert(vrun[c - q - 1][1] as int == c && vrun[c - q - 1][0] == prow);
                    assert(has_coord(v@, r, c));
                }
            }
        }
    }
    v
}

/// Cannon scan toward lower columns.
fn scan_pao_left(side: Player, board: &Board, prow: usize, pcol: usize) -> (v: Vec<[usize; 2]>)
    requires
        prow <= 9,
        pcol <= 8,
    ensures
        forall|r: int, c: int|
            has_coord(v@, r, c) <==> (r == prow as int && c < pcol as int
                && pao_ok(side, *board, prow as int, pcol as int, r, c)),
{
    let mut v: Vec<[usize; 2]> = Vec::new();
    let mut col: usize = pcol;
    loop
        invariant
            prow <= 9,
            pcol <= 8,
            col <= pcol,
            v@.len() == pcol - col,
            forall|i: int|
                #![trigger v@[i]]
                0 <= i < v@.len() ==> v@[i][0] == prow && v@[i][1] as int == pcol - 1 - i,
            forall|cc: int| col as int <= cc < pcol as int ==> vacant_at(*board, prow as int, cc),
        ensures
            col <= pcol,
            v@.len() == pcol - col,
            forall|i: int|
                #![trigger v@[i]]
                0 <= i < v@.len() ==> v@[i][0] == prow && v@[i][1] as int == pcol - 1 - i,
            forall|cc: int| col as int <= cc < pcol as int ==> vacant_at(*board, prow as int, cc),
            col >= 1 ==> !vacant_at(*board, prow as int, col as int - 1),
        decreases col,
    {
        if col == 0 {
            break;
        }
        if !cell_is_vacant(board, prow, col - 1) {
            break;
        }
        v.push([prow, col - 1]);
        col = col - 1;
    }
    let ghost vrun = v@;
    let ghost bb = *board;
    let ghost pr = prow as int;
    let ghost q = pcol as int;
    if col >= 1 {
        // (prow, col - 1) holds the screen; look for a capture beyond it.
        let ghost s = col as int - 1;
        let mut col2: usize = col - 1;
        loop
            invariant
                prow <= 9,
                pcol <= 8,
                1 <= col <= pcol,
                col2 <= col - 1,
                forall|cc: int| col2 as int <= cc < col as int - 1
                    ==> vacant_at(*board, prow as int, cc),
            ensures
                col2 <= col - 1,
                forall|cc: int| col2 as int <= cc < col as int - 1
                    ==> vacant_at(*board, prow as int, cc),
                col2 >= 1 ==> !vacant_at(*board, prow as int, col2 as int - 1),
            decreases col2,
        {
            if col2 == 0 {
                break;
            }
            if !cell_is_vacant(board, prow, col2 - 1) {
                break;
            }
            col2 = col2 - 1;
        }
        if col2 >= 1 && cell_is_enemy(board, prow, col2 - 1, side) {
            v.push([prow, col2 - 1]);
        }
        proof {
            let t = col2 as int - 1;
            assert forall|r: int, c: int|
                has_coord(v@, r, c) <==> (r == pr && c < q && pao_ok(side, bb, pr, q, r, c)) by {
                if has_coord(v@, r, c) {
                    let i = choose|i: int|
                        #![trigger v@[i]]
                        0 <= i < v@.len() && v@[i][0] == r && v@[i][1] == c;
                    if i < vrun.len() {
                        assert(v@[i] == vrun[i]);
                        assert(r == pr && c == q - 1 - i);
                        assert(vacant_at(bb, pr, c));
                        assert(row_clear(bb, pr, q, c));
                    } else {
                        assert(r == pr && c == t);
                        assert(t >= 0 && !vacant_at(bb, pr, t));
                        assert(opposing(cell_at(bb, pr, t).player, side));
                        assert(strictly_between(t, s, q) && !vacant_at(bb, pr, s));
                        assert(forall|cc: int|
                            strictly_between(t, cc, q) && cc != s ==> vacant_at(bb, pr, cc));
                        assert(row_one_screen(bb, pr, q, t));
                    }
                    assert(pao_ok(side, bb, pr, q, r, c));
                }
                if r == pr && c < q && pao_ok(side, bb, pr, q, r, c) {
                    if c > s {
                        assert(vrun[q - 1 - c][1] as int == c && vrun[q - 1 - c][0] == prow);
                        assert(v@[q - 1 - c] == vrun[q - 1 - c]);
                        assert(has_coord(v@, r, c));
                    } else if c == s {
                        assert(!vacant_at(bb, pr, c));
                        assert(row_one_screen(bb, pr, q, s));
                        let s2 = choose|s2: int|
                            strictly_between(s, s2, q) && !vacant_at(bb, pr, s2) && (forall|cc: int|
                                strictly_between(s, cc, q) && cc != s2 ==> vacant_at(bb, pr, cc));
                        assert(vacant_at(bb, pr, s2));
                        assert(false);
                    } else if c > t {
                        assert(vacant_at(bb, pr, c));
                        assert(strictly_between(c, s, q) && !vacant_at(bb, pr, s));
                        assert(!row_clear(bb, pr, q, c));
                        assert(false);
                    } else if c == t {
                        assert(t >= 0 && !vacant_at(bb, pr, t));
                        assert(opposing(cell_at(bb, pr, t).player, side));
                        assert(v@.len() == vrun.len() + 1);
                        assert(v@[vrun.len() as int][0] == prow
                            && v@[vrun.len() as int][1] as int == t);
                        assert(has_coord(v@, r, c));
                    } else {
                        assert(strictly_between(c, s, q) && !vacant_at(bb, pr, s));
                        assert(!row_clear(bb, pr, q, c));
                        assert(!vacant_at(bb, pr, c) && row_one_screen(bb, pr, q, c));
                        let s2 = choose|s2: int|
                            strictly_between(c, s2, q) && !vacant_at(bb, pr, s2) && (forall|cc: int|
                                strictly_between(c, cc, q) && cc != s2 ==> vacant_at(bb, pr, cc));
                        assert(strictly_between(c, t, q) && !vacant_at(bb, pr, t));
                        if s2 == s {
                            assert(vacant_at(bb, pr, t));
                        } else {
                            assert(vacant_at(bb, pr, s));
                        }
                        assert(false);
                    }
                }
            }
        }
    } else {
        proof {
            assert forall|r: int, c: int|
                has_coord(v@, r, c) <==> (r == pr && c < q && pao_ok(side, bb, pr, q, r, c)) by {
                if has_coord(v@, r, c) {
                    let i = choose|i: int|
                        #![trigger v@[i]]
                        0 <= i < v@.len() && v@[i][0] == r && v@[i][1] == c;
                    assert(v@[i] == vrun[i]);
                    assert(r == pr && c == q - 1 - i);
                    assert(vacant_at(bb, pr, c));
                    assert(row_clear(bb, pr, q, c));
                    assert(pao_ok(side, bb, pr, q, r, c));
                }
                if r == pr && c < q && pao_ok(side, bb, pr, q, r, c) {
                    assert(vacant_at(bb, pr, c));
                    assert(vrun[q - 1 - c][1] as int == c && vrun[q - 1 - c][0] == prow);
                    assert(has_coord(v@, r, c));
                }
            }
        }
    }
    v
}

/// Cannon scan toward higher rows.
fn scan_pao_down(side: Player, board: &Board, prow: usize, pcol: usize) -> (v: Vec<[usize; 2]>)
    requires
        prow <= 9,
        pcol <= 8,
    ensures
        forall|r: int, c: int|
            has_coord(v@, r, c) <==> (c == pcol as int && r > prow as int
                && pao_ok(side, *board, prow as int, pcol as int, r, c)),
{
    let mut v: Vec<[usize; 2]> = Vec::new();
    let mut row: usize = prow + 1;
    loop
        invariant
            prow <= 9,
            pcol <= 8,
            prow < row <= 10,
            v@.len() == row - prow - 1,
            forall|i: int|
                #![trigger v@[i]]
                0 <= i < v@.len() ==> v@[i][1] == pcol && v@[i][0] as int == prow + 1 + i,
            forall|rr: int| prow as int + 1 <= rr < row as int ==> vacant_at(*board, rr, pcol as int),
        ensures
            prow < row <= 10,
            v@.len() == row - prow - 1,
            forall|i: int|
                #![trigger v@[i]]
                0 <= i < v@.len() ==> v@[i][1] == pcol && v@[i][0] as int == prow + 1 + i,
            forall|rr: int| prow as int + 1 <= rr < row as int ==> vacant_at(*board, rr, pcol as int),
            row <= 9 ==> !vacant_at(*board, row as int, pcol as int),
        decreases 11 - row,
    {
        if row > 9 {
            break;
        }
        if !cell_is_vacant(board, row, pcol) {
            break;
        }
        v.push([row, pcol]);
        row = row + 1;
    }
    let ghost vrun = v@;
    let ghost bb = *board;
    let ghost pr = prow as int;
    let ghost q = pcol as int;
    if row <= 9 {
        // (row, pcol) holds the screen; look for a capture beyond it.
        let ghost s = row as int;
        let mut row2: usize = row + 1;
        loop
            invariant
                prow <= 9,
                pcol <= 8,
                row <= 9,
                row < row2 <= 10,
                forall|rr: int| row as int + 1 <= rr < row2 as int
                    ==> vacant_at(*board, rr, pcol as int),
            ensures
                row < row2 <= 10,
                forall|rr: int| row as int + 1 <= rr < row2 as int
                    ==> vacant_at(*board, rr, pcol as int),
                row2 <= 9 ==> !vacant_at(*board, row2 as int, pcol as int),
            decreases 11 - row2,
        {
            if row2 > 9 {
                break;
            }
            if !cell_is_vacant(board, row2, pcol) {
                break;
            }
            row2 = row2 + 1;
        }
        if row2 <= 9 && cell_is_enemy(board, row2, pcol, side) {
            v.push([row2, pcol]);
        }
        proof {
            let t = row2 as int;
            assert forall|r: int, c: int|
                has_coord(v@, r, c) <==> (c == q && r > pr && pao_ok(side, bb, pr, q, r, c)) by {
                if has_coord(v@, r, c) {
                    let i = choose|i: int|
                        #![trigger v@[i]]
                        0 <= i < v@.len() && v@[i][0] == r && v@[i][1] == c;
                    if i < vrun.len() {
                        assert(v@[i] == vrun[i]);
                        assert(c == q && r == pr + 1 + i);
                        assert(vacant_at(bb, r, q));
                        assert(col_clear(bb, q, pr, r));
                    } else {
                        assert(c == q && r == t);
                        assert(t <= 9 && !vacant_at(bb, t, q));
                        assert(opposing(cell_at(bb, t, q).player, side));
                        assert(strictly_between(pr, s, t) && !vacant_at(bb, s, q));
                        assert(forall|rr: int|
                            strictly_between(pr, rr, t) && rr != s ==> vacant_at(bb, rr, q));
                        assert(col_one_screen(bb, q, pr, t));
                    }
                    assert(pao_ok(side, bb, pr, q, r, c));
                }
                if c == q && r > pr && pao_ok(side, bb, pr, q, r, c) {
                    if r < s {
                        assert(vrun[r - pr - 1][0] as int == r && vrun[r - pr - 1][1] == pcol);
                        assert(v@[r - pr - 1] == vrun[r - pr - 1]);
                        assert(has_coord(v@, r, c));
                    } else if r == s {
                        assert(!vacant_at(bb, r, q));
                        assert(col_one_screen(bb, q, pr, s));
                        let s2 = choose|s2: int|
                            strictly_between(pr, s2, s) && !vacant_at(bb, s2, q) && (forall|rr: int|
                                strictly_between(pr, rr, s) && rr != s2 ==> vacant_at(bb, rr, q));
                        assert(vacant_at(bb, s2, q));
                        assert(false);
                    } else if r < t {
                        assert(vacant_at(bb, r, q));
                        assert(strictly_between(pr, s, r) && !vacant_at(bb, s, q));
                        assert(!col_clear(bb, q, pr, r));
                        assert(false);
                    } else if r == t {
                        assert(t <= 9 && !vacant_at(bb, t, q));
                        assert(opposing(cell_at(bb, t, q).player, side));
                        assert(v@.len() == vrun.len() + 1);
                        assert(v@[vrun.len() as int][1] == pcol && v@[vrun.len() as int][0] == row2);
                        assert(has_coord(v@, r, c));
                    } else {
                        assert(strictly_between(pr, s, r) && !vacant_at(bb, s, q));
                        assert(!col_clear(bb, q, pr, r));
                        assert(!vacant_at(bb, r, q) && col_one_screen(bb, q, pr, r));
                        let s2 = choose|s2: int|
                            strictly_between(pr, s2, r) && !vacant_at(bb, s2, q) && (forall|rr: int|
                                strictly_between(pr, rr, r) && rr != s2 ==> vacant_at(bb, rr, q));
                        assert(strictly_between(pr, t, r) && !vacant_at(bb, t, q));
                        if s2 == s {
                            assert(vacant_at(bb, t, q));
                        } else {
                            assert(vacant_at(bb, s, q));
                        }
                        assert(false);
                    }
                }
            }
        }
    } else {
        proof {
            assert forall|r: int, c: int|
                has_coord(v@, r, c) <==> (c == q && r > pr && pao_ok(side, bb, pr, q, r, c)) by {
                if has_coord(v@, r, c) {
                    let i = choose|i: int|
                        #![trigger v@[i]]
                        0 <= i < v@.len() && v@[i][0] == r && v@[i][1] == c;
                    assert(v@[i] == vrun[i]);
                    assert(c == q && r == pr + 1 + i);
                    assert(vacant_at(bb, r, q));
                    assert(col_clear(bb, q, pr, r));
                    assert(pao_ok(side, bb, pr, q, r, c));
                }
                if c == q && r > pr && pao_ok(side, bb, pr, q, r, c) {
                    assert(vacant_at(bb, r, q));
                    assert(vrun[r - pr - 1][0] as int == r && vrun[r - pr - 1][1] == pcol);
                    assert(has_coord(v@, r, c));
                }
            }
        }
    }
    v
}

/// Cannon scan toward lower rows.
fn scan_pao_up(side: Player, board: &Board, prow: usize, pcol: usize) -> (v: Vec<[usize; 2]>)
    requires
        prow <= 9,
        pcol <= 8,
    ensures
        forall|r: int, c: int|
            has_coord(v@, r, c) <==> (c == pcol as int && r < prow as int
                && pao_ok(side, *board, prow as int, pcol as int, r, c)),
{
    let mut v: Vec<[usize; 2]> = Vec::new();
    let mut row: usize = prow;
    loop
        invariant
            prow <= 9,
            pcol <= 8,
            row <= prow,
            v@.len() == prow - row,
            forall|i: int|
                #![trigger v@[i]]
                0 <= i < v@.len() ==> v@[i][1] == pcol && v@[i][0] as int == prow - 1 - i,
            forall|rr: int| row as int <= rr < prow as int ==> vacant_at(*board, rr, pcol as int),
        ensures
            row <= prow,
            v@.len() == prow - row,
            forall|i: int|
                #![trigger v@[i]]
                0 <= i < v@.len() ==> v@[i][1] == pcol && v@[i][0] as int == prow - 1 - i,
            forall|rr: int| row as int <= rr < prow as int ==> vacant_at(*board, rr, pcol as int),
            row >= 1 ==> !vacant_at(*board, row as int - 1, pcol as int),
        decreases row,
    {
        if row == 0 {
            break;
        }
        if !cell_is_vacant(board, row - 1, pcol) {
            break;
        }
        v.push([row - 1, pcol]);
        row = row - 1;
    }
    let ghost vrun = v@;
    let ghost bb = *board;
    let ghost pr = prow as int;
    let ghost q = pcol as int;
    if row >= 1 {
        // (row - 1, pcol) holds the screen; look for a capture beyond it.
        let ghost s = row as int - 1;
        let mut row2: usize = row - 1;
        loop
            invariant
                prow <= 9,
                pcol <= 8,
                1 <= row <= prow,
                row2 <= row - 1,
                forall|rr: int| row2 as int <= rr < row as int - 1
                    ==> vacant_at(*board, rr, pcol as int),
            ensures
                row2 <= row - 1,
                forall|rr: int| row2 as int <= rr < row as int - 1
                    ==> vacant_at(*board, rr, pcol as int),
                row2 >= 1 ==> !vacant_at(*board, row2 as int - 1, pcol as int),
            decreases row2,
        {
            if row2 == 0 {
                break;
            }
            if !cell_is_vacant(board, row2 - 1, pcol) {
                break;
            }
            row2 = row2 - 1;
        }
        if row2 >= 1 && cell_is_enemy(board, row2 - 1, pcol, side) {
            v.push([row2 - 1, pcol]);
        }
        proof {
            let t = row2 as int - 1;
            assert forall|r: int, c: int|
                has_coord(v@, r, c) <==> (c == q && r < pr && pao_ok(side, bb, pr, q, r, c)) by {
                if has_coord(v@, r, c) {
                    let i = choose|i: int|
                        #![trigger v@[i]]
                        0 <= i < v@.len() && v@[i][0] == r && v@[i][1] == c;
                    if i < vrun.len() {
                        assert(v@[i] == vrun[i]);
                        assert(c == q && r == pr - 1 - i);
                        assert(vacant_at(bb, r, q));
                        assert(col_clear(bb, q, pr, r));
                    } else {
                        assert(c == q && r == t);
                        assert(t >= 0 && !vacant_at(bb, t, q));
                        assert(opposing(cell_at(bb, t, q).player, side));
                        assert(strictly_between(t, s, pr) && !vacant_at(bb, s, q));
                        assert(forall|rr: int|
                            strictly_between(t, rr, pr) && rr != s ==> vacant_at(bb, rr, q));
                        assert(col_one_screen(bb, q, pr, t));
                    }
                    assert(pao_ok(side, bb, pr, q, r, c));
                }
                if c == q && r < pr && pao_ok(side, bb, pr, q, r, c) {
                    if r > s {
                        assert(vrun[pr - 1 - r][0] as int == r && vrun[pr - 1 - r][1] == pcol);
                        assert(v@[pr - 1 - r] == vrun[pr - 1 - r]);
                        assert(has_coord(v@, r, c));
                    } else if r == s {
                        assert(!vacant_at(bb, r, q));
                        assert(col_one_screen(bb, q, pr, s));
                        let s2 = choose|s2: int|
                            strictly_between(s, s2, pr) && !vacant_at(bb, s2, q) && (forall|rr: int|
                                strictly_between(s, rr, pr) && rr != s2 ==> vacant_at(bb, rr, q));
                        assert(vacant_at(bb, s2, q));
                        assert(false);
                    } else if r > t {
                        assert(vacant_at(bb, r, q));
                        assert(strictly_between(r, s, pr) && !vacant_at(bb, s, q));
                        assert(!col_clear(bb, q, pr, r));
                        assert(false);
                    } else if r == t {
                        assert(t >= 0 && !vacant_at(bb, t, q));
                        assert(opposing(cell_at(bb, t, q).player, side));
                        assert(v@.len() == vrun.len() + 1);
                        assert(v@[vrun.len() as int][1] == pcol
                            && v@[vrun.len() as int][0] as int == t);
                        assert(has_coord(v@, r, c));
                    } else {
                        assert(strictly_between(r, s, pr) && !vacant_at(bb, s, q));
                        assert(!col_clear(bb, q, pr, r));
                        assert(!vacant_at(bb, r, q) && col_one_screen(bb, q, pr, r));
                        let s2 = choose|s2: int|
                            strictly_between(r, s2, pr) && !vacant_at(bb, s2, q) && (forall|rr: int|
                                strictly_between(r, rr, pr) && rr != s2 ==> vacant_at(bb, rr, q));
                        assert(strictly_between(r, t, pr) && !vacant_at(bb, t, q));
                        if s2 == s {
                            assert(vacant_at(bb, t, q));
                        } else {
                            assert(vacant_at(bb, s, q));
                        }
                        assert(false);
                    }
                }
            }
        }
    } else {
        proof {
            assert forall|r: int, c: int|
                has_coord(v@, r, c) <==> (c == q && r < pr && pao_ok(side, bb, pr, q, r, c)) by {
                if has_coord(v@, r, c) {
                    let i = choose|i: int|
                        #![trigger v@[i]]
                        0 <= i < v@.len() && v@[i][0] == r && v@[i][1] == c;
                    assert(v@[i] == vrun[i]);
                    assert(c == q && r == pr - 1 - i);
                    assert(vacant_at(bb, r, q));
                    assert(col_clear(bb, q, pr, r));
                    assert(pao_ok(side, bb, pr, q, r, c));
                }
                if c == q && r < pr && pao_ok(side, bb, pr, q, r, c) {
                    assert(vacant_at(bb, r, q));
                    assert(vrun[pr - 1 - r][0] as int == r && vrun[pr - 1 - r][1] == pcol);
                    assert(has_coord(v@, r, c));
                }
            }
        }
    }
    v
}

/// All cannon destinations: the four sliding scans combined.
fn pao_moves(side: Player, board: &Board, prow: usize, pcol: usize) -> (v: Vec<[usize; 2]>)
    requires
        prow <= 9,
        pcol <= 8,
    ensures
        forall|r: int, c: int|
            has_coord(v@, r, c) <==> pao_ok(side, *board, prow as int, pcol as int, r, c),
{
    let mut v = scan_pao_right(side, board, prow, pcol);
    let ghost s1 = v@;
    let mut part = scan_pao_left(side, board, prow, pcol);
    let ghost s2 = part@;
    v.append(&mut part);
    let mut part = scan_pao_down(side, board, prow, pcol);
    let ghost s3 = part@;
    v.append(&mut part);
    let mut part = scan_pao_up(side, board, prow, pcol);
    let ghost s4 = part@;
    v.append(&mut part);
    proof {
        lemma_has_coord_concat(s1, s2);
        lemma_has_coord_concat(s1 + s2, s3);
        lemma_has_coord_concat(s1 + s2 + s3, s4);
        assert(v@ == s1 + s2 + s3 + s4);
        let bb = *board;
        let pr = prow as int;
        let q = pcol as int;
        assert forall|r: int, c: int|
            has_coord(v@, r, c) <==> pao_ok(side, bb, pr, q, r, c) by {
            assert(has_coord(v@, r, c) <==> (has_coord(s1, r, c) || has_coord(s2, r, c)
                || has_coord(s3, r, c) || has_coord(s4, r, c)));
            if pao_ok(side, bb, pr, q, r, c) {
                assert((r == pr && c != q) || (c == q && r != pr));
            }
        }
    }
    v
}

/// Record one destination, keeping the set of held coordinates exact.
fn push_coord(v: &mut Vec<[usize; 2]>, r: usize, c: usize)
    ensures
        forall|rr: int, cc: int|
            has_coord(final(v)@, rr, cc) <==> (has_coord(old(v)@, rr, cc)
                || (rr == r as int && cc == c as int)),
{
    let ghost sv = v@;
    v.push([r, c]);
    proof {
        let x = v@[v@.len() - 1];
        assert(v@ == sv.push(x));
        assert(x[0] == r && x[1] == c);
        lemma_has_coord_push(sv, x);
    }
}

impl Piece {
    /// Horse destinations: the L-shaped jumps whose leg square is vacant.
    fn ma_moves(&self, board: &Board, prow: usize, pcol: usize) -> (v: Vec<[usize; 2]>)
        requires
            prow <= 9,
            pcol <= 8,
        ensures
            forall|r: int, c: int|
                has_coord(v@, r, c) <==> ma_ok(self.player, *board, prow as int, pcol as int, r, c),
    {
        let mut v: Vec<[usize; 2]> = Vec::new();
        if self.vacant(board, prow + 1, pcol) {
            if self.allowed(board, prow + 2, pcol + 1) {
                push_coord(&mut v, prow + 2, pcol + 1);
            }
            if pcol >= 1 && self.allowed(board, prow + 2, pcol - 1) {
                push_coord(&mut v, prow + 2, pcol - 1);
            }
        }
        if prow >= 2 && self.vacant(board, prow - 1, pcol) {
            if self.allowed(board, prow - 2, pcol + 1) {
                push_coord(&mut v, prow - 2, pcol + 1);
            }
            if pcol >= 1 && self.allowed(board, prow - 2, pcol - 1) {
                push_coord(&mut v, prow - 2, pcol - 1);
            }
        }
        if self.vacant(board, prow, pcol + 1) {
            if prow >= 1 && self.allowed(board, prow - 1, pcol + 2) {
                push_coord(&mut v, prow - 1, pcol + 2);
            }
            if self.allowed(board, prow + 1, pcol + 2) {
                push_coord(&mut v, prow + 1, pcol + 2);
            }
        }
        if pcol >= 2 && self.vacant(board, prow, pcol - 1) {
            if prow >= 1 && self.allowed(board, prow - 1, pcol - 2) {
                push_coord(&mut v, prow - 1, pcol - 2);
            }
            if self.allowed(board, prow + 1, pcol - 2) {
                push_coord(&mut v, prow + 1, pcol - 2);
            }
        }
        v
    }

    /// Advisor destinations: between the palace centre and its corners.
    fn shi_moves(&self, board: &Board, prow: usize, pcol: usize) -> (v: Vec<[usize; 2]>)
        requires
            prow <= 9,
            pcol <= 8,
        ensures
            forall|r: int, c: int|
                has_coord(v@, r, c) <==> shi_ok(self.player, *board, prow as int, pcol as int, r, c),
    {
        let mut v: Vec<[usize; 2]> = Vec::new();
        match self.player {
            Player::Red => {
                if (prow == 7 || prow == 9) && (pcol == 3 || pcol == 5)
                    && self.allowed(board, 8, 4) {
                    push_coord(&mut v, 8, 4);
                }
                if prow == 8 && pcol == 4 {
                    if self.allowed(board, 9, 5) {
                        push_coord(&mut v, 9, 5);
                    }
                    if self.allowed(board, 9, 3) {
                        push_coord(&mut v, 9, 3);
                    }
                    if self.allowed(board, 7, 5) {
                        push_coord(&mut v, 7, 5);
                    }
                    if self.allowed(board, 7, 3) {
                        push_coord(&mut v, 7, 3);
                    }
                }
            }
            Player::Green => {
                if (prow == 0 || prow == 2) && (pcol == 3 || pcol == 5)
                    && self.allowed(board, 1, 4) {
                    push_coord(&mut v, 1, 4);
                }
                if prow == 1 && pcol == 4 {
                    if self.allowed(board, 2, 5) {
                        push_coord(&mut v, 2, 5);
                    }
                    if self.allowed(board, 2, 3) {
                        push_coord(&mut v, 2, 3);
                    }
                    if self.allowed(board, 0, 5) {
                        push_coord(&mut v, 0, 5);
                    }
                    if self.allowed(board, 0, 3) {
                        push_coord(&mut v, 0, 3);
                    }
                }
            }
            _ => {}
        }
        v
    }

    /// Elephant destinations: two diagonal steps over a vacant eye.
    fn xiang_moves(&self, board: &Board, prow: usize, pcol: usize) -> (v: Vec<[usize; 2]>)
        requires
            prow <= 9,
            pcol <= 8,
        ensures
            forall|r: int, c: int|
                has_coord(v@, r, c) <==> xiang_ok(self.player, *board, prow as int, pcol as int, r,
                    c),
    {
        let mut v: Vec<[usize; 2]> = Vec::new();
        match self.player {
            Player::Red | Player::Green => {
                if prow >= 2 && pcol >= 2 && self.vacant(board, prow - 1, pcol - 1)
                    && self.allowed(board, prow - 2, pcol - 2) {
                    push_coord(&mut v, prow - 2, pcol - 2);
                }
                if self.vacant(board, prow + 1, pcol + 1) && self.allowed(board, prow + 2, pcol + 2) {
                    push_coord(&mut v, prow + 2, pcol + 2);
                }
                if prow >= 2 && self.vacant(board, prow - 1, pcol + 1)
                    && self.allowed(board, prow - 2, pcol + 2) {
                    push_coord(&mut v, prow - 2, pcol + 2);
                }
                if pcol >= 2 && self.vacant(board, prow + 1, pcol - 1)
                    && self.allowed(board, prow + 2, pcol - 2) {
                    push_coord(&mut v, prow + 2, pcol - 2);
                }
            }
            _ => {}
        }
        v
    }

    /// Soldier destinations: forward, plus sideways once across the river.
    fn bing_moves(&self, board: &Board, prow: usize, pcol: usize) -> (v: Vec<[usize; 2]>)
        requires
            prow <= 9,
            pcol <= 8,
        ensures
            forall|r: int, c: int|
                has_coord(v@, r, c) <==> bing_ok(self.player, *board, prow as int, pcol as int, r,
                    c),
    {
        let mut v: Vec<[usize; 2]> = Vec::new();
        match self.player {
            Player::Red => {
                if prow <= 4 {
                    if prow >= 1 && self.allowed(board, prow - 1, pcol) {
                        push_coord(&mut v, prow - 1, pcol);
                    }
                    if pcol >= 1 && self.allowed(board, prow, pcol - 1) {
                        push_coord(&mut v, prow, pcol - 1);
                    }
                    if self.allowed(board, prow, pcol + 1) {
                        push_coord(&mut v, prow, pcol + 1);
                    }
                } else if self.allowed(board, prow - 1, pcol) {
                    push_coord(&mut v, prow - 1, pcol);
                }
            }
            Player::Green => {
                if prow >= 5 {
                    if self.allowed(board, prow + 1, pcol) {
                        push_coord(&mut v, prow + 1, pcol);
                    }
                    if pcol >= 1 && self.allowed(board, prow, pcol - 1) {
                        push_coord(&mut v, prow, pcol - 1);
                    }
                    if self.allowed(board, prow, pcol + 1) {
                        push_coord(&mut v, prow, pcol + 1);
                    }
                } else if self.allowed(board, prow + 1, pcol) {
                    push_coord(&mut v, prow + 1, pcol);
                }
            }
            _ => {}
        }
        v
    }

    /// General destinations: one orthogonal step inside the palace.
    fn shuai_moves(&self, board: &Board, prow: usize, pcol: usize) -> (v: Vec<[usize; 2]>)
        requires
            prow <= 9,
            pcol <= 8,
        ensures
            forall|r: int, c: int|
                has_coord(v@, r, c) <==> shuai_ok(self.player, *board, prow as int, pcol as int, r,
                    c),
    {
        let mut v: Vec<[usize; 2]> = Vec::new();
        match self.player {
            Player::Red => {
                if prow + 1 >= 7 && prow + 1 <= 9 && pcol >= 3 && pcol <= 5
                    && self.allowed(board, prow + 1, pcol) {
                    push_coord(&mut v, prow + 1, pcol);
                }
                if prow >= 8 && pcol >= 3 && pcol <= 5 && self.allowed(board, prow - 1, pcol) {
                    push_coord(&mut v, prow - 1, pcol);
                }
                if prow >= 7 && pcol + 1 >= 3 && pcol + 1 <= 5
                    && self.allowed(board, prow, pcol + 1) {
                    push_coord(&mut v, prow, pcol + 1);
                }
                if prow >= 7 && pcol >= 4 && pcol <= 6 && self.allowed(board, prow, pcol - 1) {
                    push_coord(&mut v, prow, pcol - 1);
                }
            }
            Player::Green => {
                if prow + 1 <= 2 && pcol >= 3 && pcol <= 5 && self.allowed(board, prow + 1, pcol) {
                    push_coord(&mut v, prow + 1, pcol);
                }
                if prow >= 1 && prow <= 3 && pcol >= 3 && pcol <= 5
                    && self.allowed(board, prow - 1, pcol) {
                    push_coord(&mut v, prow - 1, pcol);
                }
                if prow <= 2 && pcol + 1 >= 3 && pcol + 1 <= 5
                    && self.allowed(board, prow, pcol + 1) {
                    push_coord(&mut v, prow, pcol + 1);
                }
                if prow <= 2 && pcol >= 4 && pcol <= 6 && self.allowed(board, prow, pcol - 1) {
                    push_coord(&mut v, prow, pcol - 1);
                }
            }
            _ => {}
        }
        v
    }
}

impl Piece {
    /// All destinations this piece may move to from (prow, pcol): exactly
    /// the squares its movement rule `move_ok` admits. Every returned
    /// coordinate lies on the grid and none is held by the mover's own
    /// side.
    pub fn possible(&self, board: &Board, prow: usize, pcol: usize) -> (v: Vec<[usize; 2]>)
        requires
            prow <= 9,
            pcol <= 8,
        ensures
            forall|r: int, c: int|
                has_coord(v@, r, c) <==> move_ok(*self, *board, prow as int, pcol as int, r, c),
            forall|i: int|
                #![trigger v@[i]]
                0 <= i < v@.len() ==> in_bounds(v@[i][0] as int, v@[i][1] as int),
            forall|i: int|
                #![trigger v@[i]]
                0 <= i < v@.len() ==> (vacant_at(*board, v@[i][0] as int, v@[i][1] as int)
                    || !same_side(cell_at(*board, v@[i][0] as int, v@[i][1] as int).player,
                    self.player)),
    {
        let v = match self.piecetype {
            PieceType::Empty => Vec::new(),
            PieceType::Ju => ju_moves(self.player, board, prow, pcol),
            PieceType::Pao => pao_moves(self.player, board, prow, pcol),
            PieceType::Ma => self.ma_moves(board, prow, pcol),
            PieceType::Shi => self.shi_moves(board, prow, pcol),
            PieceType::Xiang => self.xiang_moves(board, prow, pcol),
            PieceType::Bing => self.bing_moves(board, prow, pcol),
            PieceType::Shuai => self.shuai_moves(board, prow, pcol),
        };
        proof {
            let pr = prow as int;
            let q = pcol as int;
            assert forall|i: int| 0 <= i < v@.len() implies in_bounds(v@[i][0] as int,
                v@[i][1] as int) && (vacant_at(*board, v@[i][0] as int, v@[i][1] as int)
                || !same_side(cell_at(*board, v@[i][0] as int, v@[i][1] as int).player,
                self.player)) by {
                let r = v@[i][0] as int;
                let c = v@[i][1] as int;
                assert(has_coord(v@, r, c));
                assert(move_ok(*self, *board, pr, q, r, c));
                lemma_move_ok_in_bounds(*self, *board, pr, q, r, c);
                lemma_move_ok_no_own_capture(*self, *board, pr, q, r, c);
            }
        }
        v
    }
}

impl Board {
    /// The canonical starting position.
    pub fn new() -> (b: Board)
        ensures
            forall|r: int, c: int| in_bounds(r, c) ==> cell_at(b, r, c) == init_piece(r, c),
    {
        let gr = Player::Green;
        let rd = Player::Red;
        let ng = Player::NoneGreen;
        let nr = Player::NoneRed;
        let board = Board {
            board: [
                [
                    Piece::new(PieceType::Ju, gr),
                    Piece::new(PieceType::Ma, gr),
                    Piece::new(PieceType::Xiang, gr),
                    Piece::new(PieceType::Shi, gr),
                    Piece::new(PieceType::Shuai, gr),
                    Piece::new(PieceType::Shi, gr),
                    Piece::new(PieceType::Xiang, gr),
                    Piece::new(PieceType::Ma, gr),
                    Piece::new(PieceType::Ju, gr),
                ],
                [
                    Piece::new(PieceType::Empty, ng),
                    Piece::new(PieceType::Empty, ng),
                    Piece::new(PieceType::Empty, ng),
                    Piece::new(PieceType::Empty, ng),
                    Piece::new(PieceType::Empty, ng),
                    Piece::new(PieceType::Empty, ng),
                    Piece::new(PieceType::Empty, ng),
                    Piece::new(PieceType::Empty, ng),
                    Piece::new(PieceType::Empty, ng),
                ],
                [
                    Piece::new(PieceType::Empty, ng),
                    Piece::new(PieceType::Pao, gr),
                    Piece::new(PieceType::Empty, ng),
                    Piece::new(PieceType::Empty, ng),
                    Piece::new(PieceType::Empty, ng),
                    Piece::new(PieceType::Empty, ng),
                    Piece::new(PieceType::Empty, ng),
                    Piece::new(PieceType::Pao, gr),
                    Piece::new(PieceType::Empty, ng),
                ],
                [
                    Piece::new(PieceType::Bing, gr),
                    Piece::new(PieceType::Empty, ng),
                    Piece::new(PieceType::Bing, gr),
                    Piece::new(PieceType::Empty, ng),
                    Piece::new(PieceType::Bing, gr),
                    Piece::new(PieceType::Empty, ng),
                    Piece::new(PieceType::Bing, gr),
                    Piece::new(PieceType::Empty, ng),
                    Piece::new(PieceType::Bing, gr),
                ],
                [
                    Piece::new(PieceType::Empty, ng),
                    Piece::new(PieceType::Empty, ng),
                    Piece::new(PieceType::Empty, ng),
                    Piece::new(PieceType::Empty, ng),
                    Piece::new(PieceType::Empty, ng),
                    Piece::new(PieceType::Empty, ng),
                    Piece::new(PieceType::Empty, ng),
                    Piece::new(PieceType::Empty, ng),
                    Piece::new(PieceType::Empty, ng),
                ],
                [
                    Piece::new(PieceType::Empty, nr),
                    Piece::new(PieceType::Empty, nr),
                    Piece::new(PieceType::Empty, nr),
                    Piece::new(PieceType::Empty, nr),
                    Piece::new(PieceType::Empty, nr),
                    Piece::new(PieceType::Empty, nr),
                    Piece::new(PieceType::Empty, nr),
                    Piece::new(PieceType::Empty, nr),
                    Piece::new(PieceType::Empty, nr),
                ],
                [
                    Piece::new(PieceType::Bing, rd),
                    Piece::new(PieceType::Empty, nr),
                    Piece::new(PieceType::Bing, rd),
                    Piece::new(PieceType::Empty, nr),
                    Piece::new(PieceType::Bing, rd),
                    Piece::new(PieceType::Empty, nr),
                    Piece::new(PieceType::Bing, rd),
                    Piece::new(PieceType::Empty, nr),
                    Piece::new(PieceType::Bing, rd),
                ],
                [
                    Piece::new(PieceType::Empty, nr),
                    Piece::new(PieceType::Pao, rd),
                    Piece::new(PieceType::Empty, nr),
                    Piece::new(PieceType::Empty, nr),
                    Piece::new(PieceType::Empty, nr),
                    Piece::new(PieceType::Empty, nr),
                    Piece::new(PieceType::Empty, nr),
                    Piece::new(PieceType::Pao, rd),
                    Piece::new(PieceType::Empty, nr),
                ],
                [
                    Piece::new(PieceType::Empty, nr),
                    Piece::new(PieceType::Empty, nr),
                    Piece::new(PieceType::Empty, nr),
                    Piece::new(PieceType::Empty, nr),
                    Piece::new(PieceType::Empty, nr),
                    Piece::new(PieceType::Empty, nr),
                    Piece::new(PieceType::Empty, nr),
                    Piece::new(PieceType::Empty, nr),
                    Piece::new(PieceType::Empty, nr),
                ],
                [
                    Piece::new(PieceType::Ju, rd),
                    Piece::new(PieceType::Ma, rd),
                    Piece::new(PieceType::Xiang, rd),
                    Piece::new(PieceType::Shi, rd),
                    Piece::new(PieceType::Shuai, rd),
                    Piece::new(PieceType::Shi, rd),
                    Piece::new(PieceType::Xiang, rd),
                    Piece::new(PieceType::Ma, rd),
                    Piece::new(PieceType::Ju, rd),
                ],
            ],
        };
        proof {
            assert forall|r: int, c: int| in_bounds(r, c) implies cell_at(board, r, c)
                == init_piece(r, c) by {
                assert(0 <= r <= 9 && 0 <= c <= 8);
            }
        }
        board
    }

    /// Validate a proposed move of `turn` from `from` to `to` without
    /// touching the board; the outcome is exactly `spec_verify`.
    pub fn verify(&self, turn: Player, from: [usize; 2], to: [usize; 2]) -> (res: MoveResult)
        requires
            from[0] <= 9,
            from[1] <= 8,
        ensures
            res == spec_verify(*self, turn, from[0] as int, from[1] as int, to[0] as int,
                to[1] as int),
            cell_at(*self, from[0] as int, from[1] as int).piecetype is Empty ==> res is Invalid,
            opposing(cell_at(*self, from[0] as int, from[1] as int).player, turn)
                ==> res is Invalid,
    {
        let piece = self.board[from[0]][from[1]];
        match piece.piecetype {
            PieceType::Empty => {
                return MoveResult::Invalid;
            }
            _ => {}
        }
        match (piece.player, turn) {
            (Player::Red, Player::Green) | (Player::Green, Player::Red) => {
                return MoveResult::Invalid;
            }
            _ => {}
        }
        let possible_poses = piece.possible(self, from[0], from[1]);
        let ghost fr = from[0] as int;
        let ghost fc = from[1] as int;
        proof {
            if possible_poses@.len() == 0 {
                assert forall|r: int, c: int| !move_ok(piece, *self, fr, fc, r, c) by {
                    if move_ok(piece, *self, fr, fc, r, c) {
                        assert(has_coord(possible_poses@, r, c));
                    }
                }
            } else {
                let x = possible_poses@[0];
                assert(has_coord(possible_poses@, x[0] as int, x[1] as int));
                assert(move_ok(piece, *self, fr, fc, x[0] as int, x[1] as int));
                assert(any_move(piece, *self, fr, fc));
            }
        }
        let is_shuai = match piece.piecetype {
            PieceType::Shuai => true,
            _ => false,
        };
        if is_shuai && possible_poses.len() == 0 {
            match piece.player {
                Player::Red => {
                    return MoveResult::GreenWin;
                }
                Player::Green => {
                    return MoveResult::RedWin;
                }
                _ => {}
            }
        }
        let mut found = false;
        let mut idx: usize = 0;
        while idx < possible_poses.len()
            invariant
                idx <= possible_poses@.len(),
                found <==> (exists|i: int|
                    #![trigger possible_poses@[i]]
                    0 <= i < idx && possible_poses@[i][0] == to[0]
                        && possible_poses@[i][1] == to[1]),
            decreases possible_poses@.len() - idx,
        {
            let pos = possible_poses[idx];
            if pos[0] == to[0] && pos[1] == to[1] {
                found = true;
            }
            idx = idx + 1;
        }
        proof {
            assert(found <==> has_coord(possible_poses@, to[0] as int, to[1] as int));
        }
        if !found {
            return MoveResult::Invalid;
        }
        MoveResult::Valid
    }

    /// A stub kept for replaying a game record backward; it performs no
    /// work.
    pub fn reverse_piece(&self) -> (res: MoveResult)
        ensures
            res is Valid,
    {
        MoveResult::Valid
    }

    /// Validate the proposed move and, exactly when it is Valid, apply
    /// it: the destination square takes the source square's piece, the
    /// source square becomes vacant (keeping the mover's side as its
    /// no-side sentinel), and every other square is untouched. Any other
    /// outcome leaves the board unchanged.
    pub fn move_piece(&mut self, turn: Player, from: [usize; 2], to: [usize; 2]) -> (res:
        MoveResult)
        requires
            from[0] <= 9,
            from[1] <= 8,
        ensures
            res == spec_verify(*old(self), turn, from[0] as int, from[1] as int, to[0] as int,
                to[1] as int),
            !(res is Valid) ==> *final(self) == *old(self),
            cell_at(*old(self), from[0] as int, from[1] as int).piecetype is Empty
                ==> res is Invalid,
            opposing(cell_at(*old(self), from[0] as int, from[1] as int).player, turn)
                ==> res is Invalid,
            res is Valid ==> in_bounds(to[0] as int, to[1] as int) && cell_at(*final(self),
                to[0] as int, to[1] as int) == cell_at(*old(self), from[0] as int, from[1] as int),
            res is Valid ==> cell_at(*final(self), from[0] as int, from[1] as int) == (Piece {
                piecetype: PieceType::Empty,
                player: sentinel_of(cell_at(*old(self), from[0] as int, from[1] as int).player),
            }),
            res is Valid ==> (forall|r: int, c: int|
                in_bounds(r, c) && !(r == from[0] as int && c == from[1] as int) && !(r
                    == to[0] as int && c == to[1] as int) ==> cell_at(*final(self), r, c)
                    == cell_at(*old(self), r, c)),
    {
        let isvalid = self.verify(turn, from, to);
        match isvalid {
            MoveResult::Valid => {
                proof {
                    let p = cell_at(*self, from[0] as int, from[1] as int);
                    assert(move_ok(p, *self, from[0] as int, from[1] as int, to[0] as int,
                        to[1] as int));
                    lemma_move_ok_in_bounds(p, *self, from[0] as int, from[1] as int,
                        to[0] as int, to[1] as int);
                }
                let piece = self.board[from[0]][from[1]];
                self.board[to[0]][to[1]] = piece;
                let sentinel = match piece.player {
                    Player::Red => Player::NoneRed,
                    Player::Green => Player::NoneGreen,
                    other => other,
                };
                self.board[from[0]][from[1]] = Piece::new(PieceType::Empty, sentinel);
                MoveResult::Valid
            }
            MoveResult::Invalid => MoveResult::Invalid,
            MoveResult::RedWin => MoveResult::RedWin,
            MoveResult::GreenWin => MoveResult::GreenWin,
        }
    }
}

} // verus!
