//! The turn machine: seats, match phases, and the step functions that
//! drive one match from the starting position to a finished result.
//!
//! The machine itself never reads input or prints: a caller shows the
//! board, obtains a move index from the active seat, and feeds it back
//! through `step_move`, or applies `step_pass` when no move is legal.

use vstd::prelude::*;

use crate::board::Board;
use crate::board::GameResult;
use crate::board::Player;
use crate::board::FULL_BOARD;
use crate::board::bits_seq;
use crate::board::popcount;
use crate::board::spec_legal_moves;
use crate::board::spec_reverse;

verus! {

/// Who drives a seat: a person at the prompt or the machine.
#[derive(Clone, Copy, Debug, PartialEq, Eq, Structural)]
pub enum PlayerType {
    Human,
    Cpu,
}

/// Phase of one match.
#[derive(Clone, Copy, Debug, PartialEq, Eq, Structural)]
pub enum OthelloGameState {
    BeforeMatch,
    InMatch,
    MatchFinished,
}

/// One match: its phase, which seat drives the first side,
/// the current position, and whether the previous turn was a pass.
pub struct OthelloGame {
    state: OthelloGameState,
    black_player: PlayerType,
    board: Board,
    passed: bool,
}

impl OthelloGame {
    pub closed spec fn spec_state(&self) -> OthelloGameState {
        self.state
    }

    pub closed spec fn spec_black_player(&self) -> PlayerType {
        self.black_player
    }

    pub closed spec fn spec_board(&self) -> Board {
        self.board
    }

    pub closed spec fn spec_passed(&self) -> bool {
        self.passed
    }

    /// The legal-move mask of the side to move in the current position.
    pub open spec fn spec_legal(&self) -> u64 {
        spec_legal_moves(self.spec_board().spec_mover(), self.spec_board().spec_opponent())
    }

    /// The single-bit mask the 1-based `index` selects from the decoded
    /// legal-move list.
    pub open spec fn spec_move_at(&self, index: int) -> u64 {
        bits_seq(self.spec_legal())[index - 1]
    }

    /// A fresh match on the starting position, first side driven by a person.
    pub fn new() -> (r: OthelloGame)
        ensures
            r.spec_state() == OthelloGameState::BeforeMatch,
            r.spec_black_player() == PlayerType::Human,
            r.spec_board().spec_black() == crate::board::BLACK_START,
            r.spec_board().spec_white() == crate::board::WHITE_START,
            r.spec_board().spec_turns() == 0,
            r.spec_board().inv(),
            !r.spec_passed(),
    {
        OthelloGame {
            state: OthelloGameState::BeforeMatch,
            black_player: PlayerType::Human,
            board: Board::new(),
            passed: false,
        }
    }

    /// A match set up on an arbitrary position.
    pub fn from_board(board: Board) -> (r: OthelloGame)
        ensures
            r.spec_state() == OthelloGameState::BeforeMatch,
            r.spec_black_player() == PlayerType::Human,
            r.spec_board() == board,
            !r.spec_passed(),
    {
        OthelloGame {
            state: OthelloGameState::BeforeMatch,
            black_player: PlayerType::Human,
            board,
            passed: false,
        }
    }

    /// Apply the pre-match seat choice: on a swap the machine takes the
    /// first side, otherwise the seats stay as they are.
    pub fn configure(&mut self, swap: bool)
        ensures
            final(self).spec_black_player() == (if swap {
                PlayerType::Cpu
            } else {
                old(self).spec_black_player()
            }),
            final(self).spec_state() == old(self).spec_state(),
            final(self).spec_board() == old(self).spec_board(),
            final(self).spec_passed() == old(self).spec_passed(),
    {
        if swap {
            self.black_player = PlayerType::Cpu;
        }
    }

    /// Which kind of chooser drives the side to move: the first side is
    /// driven by the configured seat, the second by the other one.
    pub open spec fn spec_current_player_type(&self) -> PlayerType {
        if self.spec_board().spec_turns() % 2 == 0 {
            self.spec_black_player()
        } else if self.spec_black_player() == PlayerType::Cpu {
            PlayerType::Human
        } else {
            PlayerType::Cpu
        }
    }

    pub fn current_player_type(&self) -> (r: PlayerType)
        ensures
            r == self.spec_current_player_type(),
    {
        let black_turn = matches!(self.board.turn(), Player::Black);
        if black_turn {
            self.black_player
        } else if matches!(self.black_player, PlayerType::Cpu) {
            PlayerType::Human
        } else {
            PlayerType::Cpu
        }
    }

    /// The current position, for rendering and inspection.
    pub fn board(&self) -> (r: &Board)
        ensures
            *r == self.spec_board(),
    {
        &self.board
    }

    /// The decoded legal-move list of the side to move.
    pub fn moves(&self) -> (r: Vec<u64>)
        ensures
            r@ == bits_seq(self.spec_legal()),
            r@.len() == popcount(self.spec_legal()),
    {
        let legal = self.board.legal_moves();
        self.board.split_moves(legal)
    }

    /// Play the move the 1-based `index` selects from the current
    /// legal-move list: the board advances by one real move, the pass
    /// flag clears, and a full board finishes the match.
    pub fn step_move(&mut self, index: usize)
        requires
            old(self).spec_board().inv(),
            old(self).spec_board().spec_turns() < usize::MAX,
            1 <= index <= bits_seq(old(self).spec_legal()).len(),
        ensures
            final(self).spec_board().spec_black() == spec_reverse(
                old(self).spec_board().spec_black(),
                old(self).spec_board().spec_white(),
                old(self).spec_board().spec_turns(),
                old(self).spec_move_at(index as int),
            ).0,
            final(self).spec_board().spec_white() == spec_reverse(
                old(self).spec_board().spec_black(),
                old(self).spec_board().spec_white(),
                old(self).spec_board().spec_turns(),
                old(self).spec_move_at(index as int),
            ).1,
            final(self).spec_board().spec_turns() == old(self).spec_board().spec_turns() + 1,
            final(self).spec_board().inv(),
            popcount(final(self).spec_board().spec_black()) + popcount(
                final(self).spec_board().spec_white(),
            ) == popcount(old(self).spec_board().spec_black()) + popcount(
                old(self).spec_board().spec_white(),
            ) + 1,
            !final(self).spec_passed(),
            final(self).spec_black_player() == old(self).spec_black_player(),
            final(self).spec_state() == (if (final(self).spec_board().spec_black() | final(self).spec_board().spec_white()) == FULL_BOARD {
                OthelloGameState::MatchFinished
            } else {
                old(self).spec_state()
            }),
    {
        let legal = self.board.legal_moves();
        let moves = self.board.split_moves(legal);
        let m = moves[index - 1];
        self.board = self.board.reverse(m);
        self.passed = false;
        if self.board.end() {
            self.state = OthelloGameState::MatchFinished;
        }
    }

    /// Advance the turn without a move. A second pass in direct
    /// succession finishes the match; the occupancy masks never change.
    pub fn step_pass(&mut self)
        requires
            old(self).spec_legal() == 0,
            old(self).spec_board().spec_turns() < usize::MAX,
        ensures
            final(self).spec_board().spec_black() == old(self).spec_board().spec_black(),
            final(self).spec_board().spec_white() == old(self).spec_board().spec_white(),
            final(self).spec_board().spec_turns() == old(self).spec_board().spec_turns() + 1,
            final(self).spec_passed(),
            final(self).spec_black_player() == old(self).spec_black_player(),
            final(self).spec_state() == (if old(self).spec_passed() {
                OthelloGameState::MatchFinished
            } else {
                old(self).spec_state()
            }),
    {
        self.board = self.board.pass();
        if self.passed {
            self.state = OthelloGameState::MatchFinished;
        } else {
            self.passed = true;
        }
    }

    pub fn is_finished(&self) -> (r: bool)
        ensures
            r == (self.spec_state() == OthelloGameState::MatchFinished),
    {
        matches!(self.state, OthelloGameState::MatchFinished)
    }

    /// Judge the current position by disc count.
    pub fn results(&self) -> (r: GameResult)
        ensures
            popcount(self.spec_board().spec_white()) == popcount(self.spec_board().spec_black())
                ==> r == GameResult::Draw,
            popcount(self.spec_board().spec_white()) > popcount(self.spec_board().spec_black())
                ==> r == GameResult::Winner(Player::White),
            popcount(self.spec_board().spec_white()) < popcount(self.spec_board().spec_black())
                ==> r == GameResult::Winner(Player::Black),
    {
        self.board.judge()
    }

    /// The automated chooser's pick: a seed reduced to a 1-based index
    /// into a list of `n` moves.
    pub fn cpu_input(n: usize, seed: u128) -> (r: usize)
        requires
            n > 0,
        ensures
            r == seed % (n as u128) + 1,
            1 <= r <= n,
    {
        (seed % (n as u128)) as usize + 1
    }
}

/// The validation an interactive chooser applies to a typed move index:
/// accepted exactly when it lies in `1 ..= count`.
pub fn valid_move_index(index: usize, count: usize) -> (r: bool)
    ensures
        r == (1 <= index && index <= count),
{
    index >= 1 && index <= count
}

} // verus!
