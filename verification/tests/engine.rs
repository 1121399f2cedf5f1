use xiangqi::board::Board;
use xiangqi::board::MoveResult;
use xiangqi::board::Piece;
use xiangqi::board::PieceType;
use xiangqi::board::Player;

fn has(v: &Vec<[usize; 2]>, r: usize, c: usize) -> bool {
    v.iter().any(|p| p[0] == r && p[1] == c)
}

fn empty_board() -> Board {
    let mut b = Board::new();
    for r in 0..10 {
        for c in 0..9 {
            b.board[r][c] = Piece::new(PieceType::Empty, Player::NoneGreen);
        }
    }
    b
}

fn boards_equal(a: &Board, b: &Board) -> bool {
    for r in 0..10 {
        for c in 0..9 {
            if a.board[r][c] != b.board[r][c] {
                return false;
            }
        }
    }
    true
}

#[test]
fn test() {}

#[test]
fn starting_layout() {
    let b = Board::new();
    assert_eq!(b.board[0][0], Piece::new(PieceType::Ju, Player::Green));
    assert_eq!(b.board[0][4], Piece::new(PieceType::Shuai, Player::Green));
    assert_eq!(b.board[2][1], Piece::new(PieceType::Pao, Player::Green));
    assert_eq!(b.board[3][4], Piece::new(PieceType::Bing, Player::Green));
    assert_eq!(b.board[9][4], Piece::new(PieceType::Shuai, Player::Red));
    assert_eq!(b.board[7][7], Piece::new(PieceType::Pao, Player::Red));
    assert_eq!(b.board[6][8], Piece::new(PieceType::Bing, Player::Red));
    assert_eq!(b.board[4][4], Piece::new(PieceType::Empty, Player::NoneGreen));
    assert_eq!(b.board[5][4], Piece::new(PieceType::Empty, Player::NoneRed));
}

#[test]
fn vacant_and_allowed() {
    let b = Board::new();
    let red_ju = b.board[9][0];
    assert!(red_ju.vacant(&b, 4, 4));
    assert!(!red_ju.vacant(&b, 0, 0));
    assert!(!red_ju.vacant(&b, 10, 0));
    assert!(!red_ju.vacant(&b, 0, 9));
    assert!(red_ju.allowed(&b, 0, 0));
    assert!(red_ju.allowed(&b, 4, 4));
    assert!(!red_ju.allowed(&b, 9, 1));
    assert!(!red_ju.allowed(&b, 10, 0));
}

#[test]
fn cannon_opening_moves() {
    let b = Board::new();
    let pao = b.board[2][1];
    let v = pao.possible(&b, 2, 1);
    assert_eq!(v.len(), 12);
    // sliding over vacant squares only, in all four directions
    for (r, c) in [(2, 0), (2, 2), (2, 3), (2, 4), (2, 5), (2, 6), (1, 1), (3, 1), (4, 1), (5, 1), (6, 1)] {
        assert!(has(&v, r, c));
    }
    // the capture over exactly one screen: the red horse behind the red cannon
    assert!(has(&v, 9, 1));
    // the screens themselves and the squares behind them are not destinations
    assert!(!has(&v, 2, 7));
    assert!(!has(&v, 2, 8));
    assert!(!has(&v, 7, 1));
    assert!(!has(&v, 8, 1));
    assert!(!has(&v, 0, 1));
}

#[test]
fn horse_opening_moves() {
    let b = Board::new();
    let ma = b.board[9][1];
    let v = ma.possible(&b, 9, 1);
    // the vacant leg (8,1) opens (7,0) and (7,2); the legs (9,0) and (9,2)
    // are occupied by the chariot and the elephant
    assert_eq!(v.len(), 2);
    assert!(has(&v, 7, 0));
    assert!(has(&v, 7, 2));
}

#[test]
fn horse_leg_blocked() {
    let mut b = Board::new();
    b.board[8][1] = Piece::new(PieceType::Bing, Player::Green);
    let ma = b.board[9][1];
    let v = ma.possible(&b, 9, 1);
    // every leg square is now occupied, even though (7,0) and (7,2) are vacant
    assert_eq!(v.len(), 0);
}

#[test]
fn chariot_blocked_by_own_pieces() {
    let b = Board::new();
    let ju = b.board[9][0];
    let v = ju.possible(&b, 9, 0);
    assert_eq!(v.len(), 2);
    assert!(has(&v, 8, 0));
    assert!(has(&v, 7, 0));
}

#[test]
fn chariot_capture_stops_scan() {
    let mut b = Board::new();
    b.board[6][0] = Piece::new(PieceType::Empty, Player::Red);
    let ju = b.board[9][0];
    let v = ju.possible(&b, 9, 0);
    // up the column to the green soldier at (3,0), capturing it, and no further
    assert_eq!(v.len(), 6);
    for r in [8, 7, 6, 5, 4, 3] {
        assert!(has(&v, r, 0));
    }
    assert!(!has(&v, 2, 0));
    assert!(!has(&v, 0, 0));
}

#[test]
fn elephant_eye_blocked() {
    let mut b = Board::new();
    let xiang = b.board[9][2];
    let open = xiang.possible(&b, 9, 2);
    assert_eq!(open.len(), 2);
    assert!(has(&open, 7, 0));
    assert!(has(&open, 7, 4));
    b.board[8][1] = Piece::new(PieceType::Bing, Player::Green);
    let blocked = xiang.possible(&b, 9, 2);
    assert_eq!(blocked.len(), 1);
    assert!(has(&blocked, 7, 4));
}

#[test]
fn advisor_and_general_opening_moves() {
    let b = Board::new();
    let shi = b.board[9][3];
    let v = shi.possible(&b, 9, 3);
    assert_eq!(v.len(), 1);
    assert!(has(&v, 8, 4));
    let shuai = b.board[9][4];
    let w = shuai.possible(&b, 9, 4);
    assert_eq!(w.len(), 1);
    assert!(has(&w, 8, 4));
}

#[test]
fn soldier_before_and_after_river() {
    let mut b = Board::new();
    let bing = b.board[6][0];
    let before = bing.possible(&b, 6, 0);
    assert_eq!(before.len(), 1);
    assert!(has(&before, 5, 0));
    // a red soldier that has crossed the river also steps sideways
    b.board[4][3] = Piece::new(PieceType::Bing, Player::Red);
    let crossed = b.board[4][3];
    let after = crossed.possible(&b, 4, 3);
    assert_eq!(after.len(), 3);
    assert!(has(&after, 3, 3));
    assert!(has(&after, 4, 2));
    assert!(has(&after, 4, 4));
}

#[test]
fn moves_stay_on_board_and_off_own_pieces() {
    let b = Board::new();
    for r in 0..10 {
        for c in 0..9 {
            let p = b.board[r][c];
            for m in p.possible(&b, r, c) {
                assert!(m[0] <= 9 && m[1] <= 8);
                let target = b.board[m[0]][m[1]];
                assert!(
                    target.piecetype == PieceType::Empty || target.player != p.player
                );
            }
        }
    }
}

#[test]
fn validate_empty_source_invalid() {
    let mut b = Board::new();
    let fresh = Board::new();
    let res = b.verify(Player::Red, [4, 4], [5, 4]);
    assert_eq!(res, MoveResult::Invalid);
    let applied = b.move_piece(Player::Red, [4, 4], [5, 4]);
    assert_eq!(applied, MoveResult::Invalid);
    assert!(boards_equal(&b, &fresh));
}

#[test]
fn validate_wrong_side_invalid() {
    let mut b = Board::new();
    let fresh = Board::new();
    let res = b.verify(Player::Red, [2, 1], [2, 2]);
    assert_eq!(res, MoveResult::Invalid);
    let applied = b.move_piece(Player::Red, [2, 1], [2, 2]);
    assert_eq!(applied, MoveResult::Invalid);
    assert!(boards_equal(&b, &fresh));
}

#[test]
fn apply_valid_move_updates_only_two_squares() {
    let mut b = Board::new();
    let fresh = Board::new();
    let res = b.move_piece(Player::Red, [6, 0], [5, 0]);
    assert_eq!(res, MoveResult::Valid);
    assert_eq!(b.board[5][0], Piece::new(PieceType::Bing, Player::Red));
    assert_eq!(b.board[6][0], Piece::new(PieceType::Empty, Player::NoneRed));
    for r in 0..10 {
        for c in 0..9 {
            if (r, c) != (5, 0) && (r, c) != (6, 0) {
                assert_eq!(b.board[r][c], fresh.board[r][c]);
            }
        }
    }
}

#[test]
fn revalidate_invalid_move_same_outcome() {
    let mut b = Board::new();
    let fresh = Board::new();
    let first = b.move_piece(Player::Red, [9, 0], [5, 5]);
    let second = b.move_piece(Player::Red, [9, 0], [5, 5]);
    assert_eq!(first, MoveResult::Invalid);
    assert_eq!(second, MoveResult::Invalid);
    assert!(boards_equal(&b, &fresh));
}

#[test]
fn surrounded_general_with_captures_is_not_a_win() {
    let mut b = empty_board();
    b.board[8][4] = Piece::new(PieceType::Shuai, Player::Red);
    b.board[7][4] = Piece::new(PieceType::Bing, Player::Green);
    b.board[9][4] = Piece::new(PieceType::Bing, Player::Green);
    b.board[8][3] = Piece::new(PieceType::Bing, Player::Green);
    b.board[8][5] = Piece::new(PieceType::Bing, Player::Green);
    // every palace exit is enemy-held, so each one is a capture, not a loss
    let shuai = b.board[8][4];
    assert_eq!(shuai.possible(&b, 8, 4).len(), 4);
    let res = b.verify(Player::Red, [8, 4], [6, 4]);
    assert_eq!(res, MoveResult::Invalid);
    let capture = b.verify(Player::Red, [8, 4], [7, 4]);
    assert_eq!(capture, MoveResult::Valid);
}

#[test]
fn trapped_red_general_means_green_wins() {
    let mut b = empty_board();
    b.board[8][4] = Piece::new(PieceType::Shuai, Player::Red);
    b.board[7][4] = Piece::new(PieceType::Bing, Player::Red);
    b.board[9][4] = Piece::new(PieceType::Bing, Player::Red);
    b.board[8][3] = Piece::new(PieceType::Bing, Player::Red);
    b.board[8][5] = Piece::new(PieceType::Bing, Player::Red);
    let fresh_cell = b.board[8][4];
    assert_eq!(fresh_cell.possible(&b, 8, 4).len(), 0);
    let res = b.move_piece(Player::Red, [8, 4], [7, 4]);
    assert_eq!(res, MoveResult::GreenWin);
    // a terminal outcome applies no move
    assert_eq!(b.board[8][4], Piece::new(PieceType::Shuai, Player::Red));
    assert_eq!(b.board[7][4], Piece::new(PieceType::Bing, Player::Red));
}

#[test]
fn trapped_green_general_means_red_wins() {
    let mut b = empty_board();
    b.board[1][4] = Piece::new(PieceType::Shuai, Player::Green);
    b.board[0][4] = Piece::new(PieceType::Bing, Player::Green);
    b.board[2][4] = Piece::new(PieceType::Bing, Player::Green);
    b.board[1][3] = Piece::new(PieceType::Bing, Player::Green);
    b.board[1][5] = Piece::new(PieceType::Bing, Player::Green);
    let res = b.move_piece(Player::Green, [1, 4], [0, 4]);
    assert_eq!(res, MoveResult::RedWin);
}

#[test]
fn destination_not_in_move_set_is_invalid() {
    let mut b = Board::new();
    // a chariot may not move diagonally
    assert_eq!(b.verify(Player::Red, [9, 0], [8, 1]), MoveResult::Invalid);
    // a soldier may not step backward
    assert_eq!(b.verify(Player::Red, [6, 0], [7, 0]), MoveResult::Invalid);
    // a cannon may not capture the first piece it meets: no screen intervenes
    assert_eq!(b.verify(Player::Red, [7, 1], [2, 1]), MoveResult::Invalid);
    assert_eq!(b.move_piece(Player::Red, [9, 0], [8, 1]), MoveResult::Invalid);
}

#[test]
fn reverse_piece_is_a_stub() {
    let b = Board::new();
    assert_eq!(b.reverse_piece(), MoveResult::Valid);
}

#[test]
fn cannon_capture_over_one_screen_applies() {
    let mut b = Board::new();
    // from (7,1) upward: (6,1)..(3,1) vacant, the green cannon at (2,1) is
    // the single screen, (1,1) is skipped, and the green horse at (0,1)
    // is the capture
    let res = b.move_piece(Player::Red, [7, 1], [0, 1]);
    assert_eq!(res, MoveResult::Valid);
    assert_eq!(b.board[0][1], Piece::new(PieceType::Pao, Player::Red));
    assert_eq!(b.board[7][1], Piece::new(PieceType::Empty, Player::NoneRed));
}
