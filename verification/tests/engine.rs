use othello::board::Board;
use othello::board::GameResult;
use othello::board::Player;

const BLACK_START: u64 = 0x0000000810000000;
const WHITE_START: u64 = 0x0000001008000000;
const OPENING_MOVES: u64 = 0x0000102004080000;

#[test]
fn initial_position() {
    let b = Board::new();
    assert_eq!(b.black(), BLACK_START);
    assert_eq!(b.white(), WHITE_START);
    assert_eq!(b.turns(), 0);
    assert_eq!(b.turn(), Player::Black);
    assert!(!b.end());
}

#[test]
fn opening_legal_moves() {
    let b = Board::new();
    let legal = b.legal_moves();
    assert_eq!(legal, OPENING_MOVES);
    assert_eq!(legal.count_ones(), 4);
    assert_eq!(b.split_moves(legal).len(), 4);
}

#[test]
fn opening_move_disc_counts() {
    let b = Board::new();
    let moves = b.split_moves(b.legal_moves());
    assert_eq!(moves.len(), 4);
    for m in moves {
        let after = b.reverse(m);
        assert_eq!(after.black().count_ones(), 4);
        assert_eq!(after.white().count_ones(), 1);
        assert_eq!(after.black() & after.white(), 0);
        assert_eq!(after.turns(), 1);
        assert_eq!(after.turn(), Player::White);
    }
}

#[test]
fn split_moves_lowest_bit_first() {
    let b = Board::new();
    let parts = b.split_moves(0b1011);
    assert_eq!(parts, vec![0b1, 0b10, 0b1000]);
    let high = b.split_moves(0x8000000000000001);
    assert_eq!(high, vec![1, 0x8000000000000000]);
    assert!(b.split_moves(0).is_empty());
}

#[test]
fn pass_keeps_masks() {
    let b = Board::new();
    let p = b.pass();
    assert_eq!(p.black(), b.black());
    assert_eq!(p.white(), b.white());
    assert_eq!(p.turns(), 1);
    assert_eq!(p.turn(), Player::White);
}

#[test]
fn from_masks_rejects_overlap() {
    assert!(Board::from_masks(0b1, 0b1, 0).is_none());
    let b = Board::from_masks(0b1, 0b10, 5).unwrap();
    assert_eq!(b.black(), 0b1);
    assert_eq!(b.white(), 0b10);
    assert_eq!(b.turns(), 5);
    assert_eq!(b.turn(), Player::White);
}

#[test]
fn end_iff_union_full() {
    let full = Board::from_masks(0x00000000FFFFFFFF, 0xFFFFFFFF00000000, 0).unwrap();
    assert!(full.end());
    let almost = Board::from_masks(0x00000000FFFFFFFF, 0x7FFFFFFF00000000, 0).unwrap();
    assert!(!almost.end());
    assert!(!Board::new().end());
}

#[test]
fn judge_full_board_draw() {
    let full = Board::from_masks(0x00000000FFFFFFFF, 0xFFFFFFFF00000000, 0).unwrap();
    assert_eq!(full.judge(), GameResult::Draw);
}

#[test]
fn judge_counts_bits() {
    let b = Board::from_masks(0b111, 0b11000, 0).unwrap();
    assert_eq!(b.judge(), GameResult::Winner(Player::Black));
    let w = Board::from_masks(0b100, 0b11000, 0).unwrap();
    assert_eq!(w.judge(), GameResult::Winner(Player::White));
    assert_eq!(Board::new().judge(), GameResult::Draw);
}

#[test]
fn single_pass_then_opponent_can_move() {
    // The side to move holds only bit 1, the opponent bit 0: the mover
    // has no legal move, but after a pass the new mover can play bit 2.
    let b = Board::from_masks(0b10, 0b01, 0).unwrap();
    assert_eq!(b.legal_moves(), 0);
    let p = b.pass();
    let legal = p.legal_moves();
    assert_ne!(legal, 0);
    assert_eq!(legal, 0b100);
}

#[test]
fn popcount_matches_count_ones() {
    assert_eq!(othello::board::popcount64(0), 0);
    assert_eq!(othello::board::popcount64(u64::MAX), 64);
    assert_eq!(othello::board::popcount64(0x8000000000000001), 2);
    assert_eq!(othello::board::popcount64(0x0123456789ABCDEF), 0x0123456789ABCDEFu64.count_ones());
}

#[test]
fn render_rows_of_start() {
    let b = Board::new();
    let rank_four: Vec<char> = b.row_chars(3);
    assert_eq!(rank_four, vec!['.', '.', '.', '\u{25cb}', '\u{25cf}', '.', '.', '.']);
    let rank_five: Vec<char> = b.row_chars(4);
    assert_eq!(rank_five, vec!['.', '.', '.', '\u{25cf}', '\u{25cb}', '.', '.', '.']);
    let rank_one: Vec<char> = b.row_chars(0);
    assert_eq!(rank_one, vec!['.'; 8]);
}
