use othello::board::Board;
use othello::board::GameResult;
use othello::game::OthelloGame;
use othello::game::PlayerType;
use othello::game::valid_move_index;

#[test]
fn fresh_game_is_not_finished() {
    let g = OthelloGame::new();
    assert!(!g.is_finished());
    assert_eq!(g.board().turns(), 0);
    assert_eq!(g.moves().len(), 4);
}

#[test]
fn configure_assigns_seats() {
    let mut g = OthelloGame::new();
    assert_eq!(g.current_player_type(), PlayerType::Human);
    g.configure(false);
    assert_eq!(g.current_player_type(), PlayerType::Human);
    g.configure(true);
    assert_eq!(g.current_player_type(), PlayerType::Cpu);
}

#[test]
fn seats_alternate_with_turns() {
    let mut g = OthelloGame::new();
    g.step_move(1);
    // Second side to move: driven by the seat the first side is not.
    assert_eq!(g.current_player_type(), PlayerType::Cpu);
}

#[test]
fn step_move_applies_one_move() {
    let mut g = OthelloGame::new();
    g.step_move(1);
    let b = g.board();
    assert_eq!(b.turns(), 1);
    assert_eq!(b.black().count_ones() + b.white().count_ones(), 5);
    assert!(!g.is_finished());
}

#[test]
fn double_pass_finishes_with_judgement() {
    // Opposite corners, one disc each: neither side ever has a move.
    let b = Board::from_masks(0x1, 0x8000000000000000, 0).unwrap();
    let mut g = OthelloGame::from_board(b);
    assert_eq!(g.moves().len(), 0);
    g.step_pass();
    assert!(!g.is_finished());
    assert_eq!(g.moves().len(), 0);
    g.step_pass();
    assert!(g.is_finished());
    // One disc each on a non-full board: the judgement is a draw.
    assert_eq!(g.results(), GameResult::Draw);
    assert_eq!(g.board().black().count_ones(), g.board().white().count_ones());
}

#[test]
fn move_and_pass_mix_keeps_passes_non_consecutive() {
    // A pass followed by a real move must not finish the match on the
    // next pass alone being the second overall.
    let b = Board::from_masks(0b10, 0b01, 0).unwrap();
    let mut g = OthelloGame::from_board(b);
    assert_eq!(g.moves().len(), 0);
    g.step_pass();
    assert!(!g.is_finished());
    assert_eq!(g.moves().len(), 1);
    g.step_move(1);
    assert!(!g.is_finished());
}

#[test]
fn filling_the_board_finishes() {
    // Every square black except bit 1 (white) and bit 0 (empty): the
    // one legal move fills the board and ends the match.
    let black = !0b11u64;
    let b = Board::from_masks(black, 0b10, 0).unwrap();
    let mut g = OthelloGame::from_board(b);
    let moves = g.moves();
    assert_eq!(moves, vec![0b1]);
    g.step_move(1);
    assert!(g.is_finished());
    assert_eq!(g.results(), GameResult::Winner(othello::board::Player::Black));
    assert_eq!(g.board().black().count_ones(), 64);
}

#[test]
fn cpu_input_reduces_seed() {
    assert_eq!(OthelloGame::cpu_input(3, 5), 3);
    assert_eq!(OthelloGame::cpu_input(3, 6), 1);
    assert_eq!(OthelloGame::cpu_input(1, 123456789), 1);
}

#[test]
fn move_index_validation() {
    assert!(!valid_move_index(0, 4));
    assert!(valid_move_index(1, 4));
    assert!(valid_move_index(4, 4));
    assert!(!valid_move_index(5, 4));
    assert!(!valid_move_index(1, 0));
}
