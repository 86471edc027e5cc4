//! The bitboard: two disjoint 64-bit occupancy masks and a turn counter.
//!
//! Square `k` (0 <= k < 64) is bit `k` of a mask. Row `i` (top to bottom)
//! and column `j` (left to right) of the displayed grid correspond to bit
//! `8 * (7 - i) + 7 - j`.

use vstd::prelude::*;

verus! {

use vstd::arithmetic::power2::pow2;
use vstd::arithmetic::power2::lemma_pow2_unfold;
use vstd::arithmetic::power2::lemma2_to64_rest;

/// Mask of the six inner files: stops a horizontal fill from wrapping
/// across the left and right edges.
pub const LR_EDGE_MASK: u64 = 0x7e7e7e7e7e7e7e7e;

/// Mask of the six inner ranks: stops a vertical fill from wrapping
/// across the top and bottom edges.
pub const TB_EDGE_MASK: u64 = 0x00FFFFFFFFFFFF00;

/// Mask of the inner 6x6 block: stops a diagonal fill from wrapping
/// across any edge.
pub const LTRB_EDGE_MASK: u64 = 0x007e7e7e7e7e7e00;

/// The two central starting discs of the first side.
pub const BLACK_START: u64 = 0x0000000810000000;

/// The two central starting discs of the second side.
pub const WHITE_START: u64 = 0x0000001008000000;

/// All 64 squares occupied.
pub const FULL_BOARD: u64 = 0xFFFFFFFFFFFFFFFF;

/// Number of set bits of `x`.
pub open spec fn popcount(x: u64) -> nat
    decreases x,
{
    if x == 0 {
        0
    } else {
        (x % 2 + popcount(x / 2)) as nat
    }
}

/// `p` has exactly one bit set.
pub open spec fn single_bit(p: u64) -> bool {
    p != 0 && p & ((p - 1) as u64) == 0
}

/// Bounded flood fill towards higher bit positions: the union of up to
/// six successive left shifts of `seed` by `n`, each step intersected
/// with `data`. Six steps suffice on an 8-wide board; the bound is fixed
/// rather than iterating to a fixed point.
pub open spec fn fill_l(seed: u64, data: u64, n: u64) -> u64 {
    let f1 = data & (seed << n);
    let f2 = f1 | (data & (f1 << n));
    let f3 = f2 | (data & (f2 << n));
    let f4 = f3 | (data & (f3 << n));
    let f5 = f4 | (data & (f4 << n));
    f5 | (data & (f5 << n))
}

/// Bounded flood fill towards lower bit positions.
pub open spec fn fill_r(seed: u64, data: u64, n: u64) -> u64 {
    let f1 = data & (seed >> n);
    let f2 = f1 | (data & (f1 >> n));
    let f3 = f2 | (data & (f2 >> n));
    let f4 = f3 | (data & (f3 >> n));
    let f5 = f4 | (data & (f4 >> n));
    f5 | (data & (f5 >> n))
}

/// Squares reached along one axis: fill through the opponent's discs
/// restricted by the axis's edge mask, then step once further in each
/// direction. A surviving bit lands just past a run of opponent discs
/// that starts next to one of the mover's discs.
pub open spec fn legal_dir(tp: u64, ntp: u64, mask: u64, n: u64) -> u64 {
    (fill_l(tp, ntp & mask, n) << n) | (fill_r(tp, ntp & mask, n) >> n)
}

/// Union of the reached squares over the four axes, occupied or not.
pub open spec fn legal_union(tp: u64, ntp: u64) -> u64 {
    legal_dir(tp, ntp, LR_EDGE_MASK, 1) | legal_dir(tp, ntp, TB_EDGE_MASK, 8) | legal_dir(
        tp,
        ntp,
        LTRB_EDGE_MASK,
        7,
    ) | legal_dir(tp, ntp, LTRB_EDGE_MASK, 9)
}

/// The legal moves of the side holding `tp` against the side holding
/// `ntp`: reached squares that are empty.
pub open spec fn spec_legal_moves(tp: u64, ntp: u64) -> u64 {
    legal_union(tp, ntp) & !(tp | ntp)
}

/// A capturing run downward of `pos`: one to six contiguous squares of
/// `e` directly below `pos` (stepping by `n`), capped by a disc of
/// `tp`. This is the rule of the game stated square by square, without
/// the flood fill.
pub open spec fn run_l(tp: u64, e: u64, pos: u64, n: u64) -> bool {
    let s1 = pos >> n;
    let s2 = s1 >> n;
    let s3 = s2 >> n;
    let s4 = s3 >> n;
    let s5 = s4 >> n;
    let s6 = s5 >> n;
    let s7 = s6 >> n;
    ||| (s1 & e == s1 && s2 & tp != 0)
    ||| (s1 & e == s1 && s2 & e == s2 && s3 & tp != 0)
    ||| (s1 & e == s1 && s2 & e == s2 && s3 & e == s3 && s4 & tp != 0)
    ||| (s1 & e == s1 && s2 & e == s2 && s3 & e == s3 && s4 & e == s4 && s5 & tp != 0)
    ||| (s1 & e == s1 && s2 & e == s2 && s3 & e == s3 && s4 & e == s4 && s5 & e == s5 && s6 & tp
        != 0)
    ||| (s1 & e == s1 && s2 & e == s2 && s3 & e == s3 && s4 & e == s4 && s5 & e == s5 && s6 & e
        == s6 && s7 & tp != 0)
}

/// A capturing run upward of `pos`, the mirror image of `run_l`.
pub open spec fn run_r(tp: u64, e: u64, pos: u64, n: u64) -> bool {
    let s1 = pos << n;
    let s2 = s1 << n;
    let s3 = s2 << n;
    let s4 = s3 << n;
    let s5 = s4 << n;
    let s6 = s5 << n;
    let s7 = s6 << n;
    ||| (s1 & e == s1 && s2 & tp != 0)
    ||| (s1 & e == s1 && s2 & e == s2 && s3 & tp != 0)
    ||| (s1 & e == s1 && s2 & e == s2 && s3 & e == s3 && s4 & tp != 0)
    ||| (s1 & e == s1 && s2 & e == s2 && s3 & e == s3 && s4 & e == s4 && s5 & tp != 0)
    ||| (s1 & e == s1 && s2 & e == s2 && s3 & e == s3 && s4 & e == s4 && s5 & e == s5 && s6 & tp
        != 0)
    ||| (s1 & e == s1 && s2 & e == s2 && s3 & e == s3 && s4 & e == s4 && s5 & e == s5 && s6 & e
        == s6 && s7 & tp != 0)
}

#[verifier::rlimit(100)]
proof fn lemma_legal_dir_runs(tp: u64, ntp: u64, pos: u64, mask: u64, n: u64)
    requires
        n < 64,
        single_bit(pos),
    ensures
        pos & legal_dir(tp, ntp, mask, n) == pos <==> run_l(tp, ntp & mask, pos, n) || run_r(
            tp,
            ntp & mask,
            pos,
            n,
        ),
{
    let e = ntp & mask;
    assert(pos & (fill_l(tp, e, n) << n) == pos <==> run_l(tp, e, pos, n)) by (bit_vector)
        requires
            n < 64,
            pos != 0,
            pos & ((pos - 1) as u64) == 0,
    ;
    assert(pos & (fill_r(tp, e, n) >> n) == pos <==> run_r(tp, e, pos, n)) by (bit_vector)
        requires
            n < 64,
            pos != 0,
            pos & ((pos - 1) as u64) == 0,
    ;
    assert(pos & ((fill_l(tp, e, n) << n) | (fill_r(tp, e, n) >> n)) == pos <==> (pos & (fill_l(
        tp,
        e,
        n,
    ) << n) == pos || pos & (fill_r(tp, e, n) >> n) == pos)) by (bit_vector)
        requires
            pos != 0,
            pos & ((pos - 1) as u64) == 0,
    ;
}

/// The flood-fill move mask agrees with the game's rule stated square
/// by square: a single-bit `pos` is a legal move exactly when its
/// square is empty and, along some axis and direction, an unbroken run
/// of opponent discs next to it is capped by one of the mover's discs.
pub proof fn lemma_legal_moves_are_runs(tp: u64, ntp: u64, pos: u64)
    requires
        single_bit(pos),
    ensures
        pos & spec_legal_moves(tp, ntp) == pos <==> pos & (tp | ntp) == 0 && (run_l(
            tp,
            ntp & LR_EDGE_MASK,
            pos,
            1,
        ) || run_r(tp, ntp & LR_EDGE_MASK, pos, 1) || run_l(tp, ntp & TB_EDGE_MASK, pos, 8)
            || run_r(tp, ntp & TB_EDGE_MASK, pos, 8) || run_l(tp, ntp & LTRB_EDGE_MASK, pos, 7)
            || run_r(tp, ntp & LTRB_EDGE_MASK, pos, 7) || run_l(tp, ntp & LTRB_EDGE_MASK, pos, 9)
            || run_r(tp, ntp & LTRB_EDGE_MASK, pos, 9)),
{
    lemma_legal_dir_runs(tp, ntp, pos, LR_EDGE_MASK, 1);
    lemma_legal_dir_runs(tp, ntp, pos, TB_EDGE_MASK, 8);
    lemma_legal_dir_runs(tp, ntp, pos, LTRB_EDGE_MASK, 7);
    lemma_legal_dir_runs(tp, ntp, pos, LTRB_EDGE_MASK, 9);
    let d1 = legal_dir(tp, ntp, LR_EDGE_MASK, 1);
    let d2 = legal_dir(tp, ntp, TB_EDGE_MASK, 8);
    let d3 = legal_dir(tp, ntp, LTRB_EDGE_MASK, 7);
    let d4 = legal_dir(tp, ntp, LTRB_EDGE_MASK, 9);
    assert(pos & ((d1 | d2 | d3 | d4) & !(tp | ntp)) == pos <==> (pos & (tp | ntp) == 0 && (pos
        & d1 == pos || pos & d2 == pos || pos & d3 == pos || pos & d4 == pos))) by (bit_vector)
        requires
            pos != 0,
            pos & ((pos - 1) as u64) == 0,
    ;
}

/// Discs captured along one axis by a move on `pos`: the fill outward
/// from the placed disc meets the fill inward from the mover's discs,
/// in both directions of the axis.
pub open spec fn flips_dir(tp: u64, ntp: u64, pos: u64, mask: u64, n: u64) -> u64 {
    let e = ntp & mask;
    (fill_l(pos, e, n) & fill_r(tp, e, n)) | (fill_r(pos, e, n) & fill_l(tp, e, n))
}

/// All discs captured by a move on `pos`, over the four axes.
pub open spec fn spec_flips(tp: u64, ntp: u64, pos: u64) -> u64 {
    flips_dir(tp, ntp, pos, LR_EDGE_MASK, 1) | flips_dir(tp, ntp, pos, TB_EDGE_MASK, 8)
        | flips_dir(tp, ntp, pos, LTRB_EDGE_MASK, 7) | flips_dir(tp, ntp, pos, LTRB_EDGE_MASK, 9)
}

/// The masks `(black, white)` after the side to move places a disc on
/// `pos`: the mover gains the placed disc and the captured set, the
/// opponent loses the captured set.
pub open spec fn spec_reverse(black: u64, white: u64, turns: usize, pos: u64) -> (u64, u64) {
    if turns % 2 == 0 {
        let t = spec_flips(black, white, pos);
        (black ^ pos ^ t, white ^ t)
    } else {
        let t = spec_flips(white, black, pos);
        (black ^ t, white ^ pos ^ t)
    }
}

proof fn lemma_fill_subset(s: u64, d: u64, n: u64)
    ensures
        fill_l(s, d, n) & d == fill_l(s, d, n),
        fill_r(s, d, n) & d == fill_r(s, d, n),
{
    assert(fill_l(s, d, n) & d == fill_l(s, d, n) && fill_r(s, d, n) & d == fill_r(s, d, n))
        by (bit_vector);
}

proof fn lemma_flips_dir_subset(tp: u64, ntp: u64, pos: u64, mask: u64, n: u64)
    ensures
        flips_dir(tp, ntp, pos, mask, n) & ntp == flips_dir(tp, ntp, pos, mask, n),
{
    let e = ntp & mask;
    lemma_fill_subset(pos, e, n);
    lemma_fill_subset(tp, e, n);
    let a = fill_l(pos, e, n);
    let b = fill_r(tp, e, n);
    let c = fill_r(pos, e, n);
    let d = fill_l(tp, e, n);
    assert(((a & b) | (c & d)) & ntp == ((a & b) | (c & d))) by (bit_vector)
        requires
            a & (ntp & mask) == a,
            c & (ntp & mask) == c,
    ;
}

proof fn lemma_flips_dir_nonzero(tp: u64, ntp: u64, pos: u64, mask: u64, n: u64)
    requires
        n < 64,
        single_bit(pos),
        pos & legal_dir(tp, ntp, mask, n) == pos,
    ensures
        flips_dir(tp, ntp, pos, mask, n) != 0,
{
    let e = ntp & mask;
    let fl = fill_l(tp, e, n);
    let fr = fill_r(tp, e, n);
    lemma_fill_subset(tp, e, n);
    if pos & (fl << n) == pos {
        assert(fill_r(pos, e, n) & fl != 0) by (bit_vector)
            requires
                n < 64,
                pos != 0,
                pos & ((pos - 1) as u64) == 0,
                pos & (fl << n) == pos,
                fl & e == fl,
        ;
    } else {
        assert(pos & (fr >> n) == pos) by (bit_vector)
            requires
                pos != 0,
                pos & ((pos - 1) as u64) == 0,
                pos & ((fl << n) | (fr >> n)) == pos,
                !(pos & (fl << n) == pos),
        ;
        assert(fill_l(pos, e, n) & fr != 0) by (bit_vector)
            requires
                n < 64,
                pos != 0,
                pos & ((pos - 1) as u64) == 0,
                pos & (fr >> n) == pos,
                fr & e == fr,
        ;
    }
    let a = fill_l(pos, e, n) & fr;
    let b = fill_r(pos, e, n) & fl;
    assert((a | b) != 0) by (bit_vector)
        requires
            a != 0 || b != 0,
    ;
}

/// A legal move captures: the flip set of a move drawn from the
/// legal-move mask is never empty.
proof fn lemma_flips_nonzero(tp: u64, ntp: u64, pos: u64)
    requires
        single_bit(pos),
        pos & spec_legal_moves(tp, ntp) == pos,
    ensures
        spec_flips(tp, ntp, pos) != 0,
{
    let d1 = legal_dir(tp, ntp, LR_EDGE_MASK, 1);
    let d2 = legal_dir(tp, ntp, TB_EDGE_MASK, 8);
    let d3 = legal_dir(tp, ntp, LTRB_EDGE_MASK, 7);
    let d4 = legal_dir(tp, ntp, LTRB_EDGE_MASK, 9);
    let lu = legal_union(tp, ntp);
    assert((pos & d1 == pos) || (pos & d2 == pos) || (pos & d3 == pos) || (pos & d4 == pos))
        by (bit_vector)
        requires
            pos != 0,
            pos & ((pos - 1) as u64) == 0,
            pos & (lu & !(tp | ntp)) == pos,
            lu == d1 | d2 | d3 | d4,
    ;
    if pos & d1 == pos {
        lemma_flips_dir_nonzero(tp, ntp, pos, LR_EDGE_MASK, 1);
    } else if pos & d2 == pos {
        lemma_flips_dir_nonzero(tp, ntp, pos, TB_EDGE_MASK, 8);
    } else if pos & d3 == pos {
        lemma_flips_dir_nonzero(tp, ntp, pos, LTRB_EDGE_MASK, 7);
    } else {
        lemma_flips_dir_nonzero(tp, ntp, pos, LTRB_EDGE_MASK, 9);
    }
    let t1 = flips_dir(tp, ntp, pos, LR_EDGE_MASK, 1);
    let t2 = flips_dir(tp, ntp, pos, TB_EDGE_MASK, 8);
    let t3 = flips_dir(tp, ntp, pos, LTRB_EDGE_MASK, 7);
    let t4 = flips_dir(tp, ntp, pos, LTRB_EDGE_MASK, 9);
    assert((t1 | t2 | t3 | t4) != 0) by (bit_vector)
        requires
            t1 != 0 || t2 != 0 || t3 != 0 || t4 != 0,
    ;
}

/// `(mask, n)` is one of the four real board axes with its edge mask.
pub open spec fn is_axis(mask: u64, n: u64) -> bool {
    (mask == LR_EDGE_MASK && n == 1) || (mask == TB_EDGE_MASK && n == 8) || (mask
        == LTRB_EDGE_MASK && n == 7) || (mask == LTRB_EDGE_MASK && n == 9)
}

/// A capture along an axis makes the move legal along that axis. This
/// holds of the four real axes only: their edge masks cap an unbroken
/// opponent run at six squares, which is what makes the fixed six-step
/// fill reach across any such run.
proof fn lemma_flips_dir_legal(tp: u64, ntp: u64, pos: u64, mask: u64, n: u64)
    requires
        is_axis(mask, n),
        single_bit(pos),
        flips_dir(tp, ntp, pos, mask, n) != 0,
    ensures
        pos & legal_dir(tp, ntp, mask, n) == pos,
{
    let e = ntp & mask;
    let a = fill_l(pos, e, n) & fill_r(tp, e, n);
    let b = fill_r(pos, e, n) & fill_l(tp, e, n);
    assert(a != 0 || b != 0) by (bit_vector)
        requires
            (a | b) != 0,
    ;
    if b != 0 {
        assert(pos & (fill_l(tp, e, n) << n) == pos) by (bit_vector)
            requires
                pos != 0,
                pos & ((pos - 1) as u64) == 0,
                is_axis(mask, n),
                e == ntp & mask,
                fill_r(pos, e, n) & fill_l(tp, e, n) != 0,
        ;
        assert(pos & ((fill_l(tp, e, n) << n) | (fill_r(tp, e, n) >> n)) == pos) by (bit_vector)
            requires
                pos & (fill_l(tp, e, n) << n) == pos,
        ;
    } else {
        assert(pos & (fill_r(tp, e, n) >> n) == pos) by (bit_vector)
            requires
                pos != 0,
                pos & ((pos - 1) as u64) == 0,
                is_axis(mask, n),
                e == ntp & mask,
                fill_l(pos, e, n) & fill_r(tp, e, n) != 0,
        ;
        assert(pos & ((fill_l(tp, e, n) << n) | (fill_r(tp, e, n) >> n)) == pos) by (bit_vector)
            requires
                pos & (fill_r(tp, e, n) >> n) == pos,
        ;
    }
}

/// The classical statement of the rule: a disc placed on an empty
/// square is a legal move exactly when it captures at least one
/// opponent disc.
pub proof fn lemma_legal_iff_captures(tp: u64, ntp: u64, pos: u64)
    requires
        single_bit(pos),
        pos & (tp | ntp) == 0,
    ensures
        pos & spec_legal_moves(tp, ntp) == pos <==> spec_flips(tp, ntp, pos) != 0,
{
    if pos & spec_legal_moves(tp, ntp) == pos {
        lemma_flips_nonzero(tp, ntp, pos);
    }
    if spec_flips(tp, ntp, pos) != 0 {
        let t1 = flips_dir(tp, ntp, pos, LR_EDGE_MASK, 1);
        let t2 = flips_dir(tp, ntp, pos, TB_EDGE_MASK, 8);
        let t3 = flips_dir(tp, ntp, pos, LTRB_EDGE_MASK, 7);
        let t4 = flips_dir(tp, ntp, pos, LTRB_EDGE_MASK, 9);
        assert(t1 != 0 || t2 != 0 || t3 != 0 || t4 != 0) by (bit_vector)
            requires
                (t1 | t2 | t3 | t4) != 0,
        ;
        if t1 != 0 {
            lemma_flips_dir_legal(tp, ntp, pos, LR_EDGE_MASK, 1);
        } else if t2 != 0 {
            lemma_flips_dir_legal(tp, ntp, pos, TB_EDGE_MASK, 8);
        } else if t3 != 0 {
            lemma_flips_dir_legal(tp, ntp, pos, LTRB_EDGE_MASK, 7);
        } else {
            lemma_flips_dir_legal(tp, ntp, pos, LTRB_EDGE_MASK, 9);
        }
        let lu = legal_union(tp, ntp);
        assert(pos & (lu & !(tp | ntp)) == pos) by (bit_vector)
            requires
                lu == legal_dir(tp, ntp, LR_EDGE_MASK, 1) | legal_dir(tp, ntp, TB_EDGE_MASK, 8)
                    | legal_dir(tp, ntp, LTRB_EDGE_MASK, 7) | legal_dir(tp, ntp, LTRB_EDGE_MASK, 9),
                pos & (tp | ntp) == 0,
                (pos & legal_dir(tp, ntp, LR_EDGE_MASK, 1) == pos) || (pos & legal_dir(
                    tp,
                    ntp,
                    TB_EDGE_MASK,
                    8,
                ) == pos) || (pos & legal_dir(tp, ntp, LTRB_EDGE_MASK, 7) == pos) || (pos
                    & legal_dir(tp, ntp, LTRB_EDGE_MASK, 9) == pos),
        ;
    }
}

/// Every captured disc belonged to the opponent: the flip set is a
/// subset of the opponent's mask.
proof fn lemma_flips_subset(tp: u64, ntp: u64, pos: u64)
    ensures
        spec_flips(tp, ntp, pos) & ntp == spec_flips(tp, ntp, pos),
{
    lemma_flips_dir_subset(tp, ntp, pos, LR_EDGE_MASK, 1);
    lemma_flips_dir_subset(tp, ntp, pos, TB_EDGE_MASK, 8);
    lemma_flips_dir_subset(tp, ntp, pos, LTRB_EDGE_MASK, 7);
    lemma_flips_dir_subset(tp, ntp, pos, LTRB_EDGE_MASK, 9);
    let t1 = flips_dir(tp, ntp, pos, LR_EDGE_MASK, 1);
    let t2 = flips_dir(tp, ntp, pos, TB_EDGE_MASK, 8);
    let t3 = flips_dir(tp, ntp, pos, LTRB_EDGE_MASK, 7);
    let t4 = flips_dir(tp, ntp, pos, LTRB_EDGE_MASK, 9);
    assert((t1 | t2 | t3 | t4) & ntp == (t1 | t2 | t3 | t4)) by (bit_vector)
        requires
            t1 & ntp == t1,
            t2 & ntp == t2,
            t3 & ntp == t3,
            t4 & ntp == t4,
    ;
}

/// The side to move, derived from the turn counter alone.
#[derive(Debug, PartialEq, Eq, Structural)]
pub enum Player {
    Black,
    White,
}

/// Outcome of a finished match: the side with strictly more discs wins.
#[derive(Debug, PartialEq, Eq, Structural)]
pub enum GameResult {
    Winner(Player),
    Draw,
}

/// What one square holds.
#[derive(Clone, Copy, Debug, PartialEq, Eq, Structural)]
pub enum Piece {
    Empty,
    Black,
    White,
}

impl Piece {
    /// The glyph a renderer uses for this square.
    pub open spec fn spec_char(&self) -> char {
        match self {
            Piece::Empty => '.',
            Piece::Black => '\u{25cf}',
            Piece::White => '\u{25cb}',
        }
    }

    pub fn to_char(&self) -> (r: char)
        ensures
            r == self.spec_char(),
    {
        match self {
            Piece::Empty => '.',
            Piece::Black => '\u{25cf}',
            Piece::White => '\u{25cb}',
        }
    }
}

/// The lowest set bit of `x` (zero when `x` is zero).
pub open spec fn lowest_bit(x: u64) -> u64 {
    x & !((x - 1) as u64)
}

/// The set bits of `x` as single-bit masks, lowest bit first.
pub open spec fn bits_seq(x: u64) -> Seq<u64>
    decreases x,
    via bits_seq_decreases
{
    if x == 0 {
        Seq::empty()
    } else {
        seq![lowest_bit(x)] + bits_seq(x ^ lowest_bit(x))
    }
}

#[via_fn]
proof fn bits_seq_decreases(x: u64) {
    assert(x != 0 ==> (x ^ (x & !((x - 1) as u64))) < x) by (bit_vector);
}

proof fn lemma_subset_trans(a: u64, b: u64, c: u64)
    by (bit_vector)
    requires
        a & b == a,
        b & c == b,
    ensures
        a & c == a,
{
}

/// The decoded sequence has one entry per set bit, and every entry is a
/// single-bit submask of the input.
proof fn lemma_bits_seq_props(x: u64)
    ensures
        bits_seq(x).len() == popcount(x),
        forall|i: int|
            0 <= i < bits_seq(x).len() ==> single_bit(#[trigger] bits_seq(x)[i]) && bits_seq(x)[i]
                & x == bits_seq(x)[i],
    decreases x,
{
    if x != 0 {
        let y = lowest_bit(x);
        assert(y != 0 && y & ((y - 1) as u64) == 0 && (x ^ y) & y == 0 && ((x ^ y) | y) == x && (x
            ^ y) < x && y & x == y && (x ^ y) & x == (x ^ y)) by (bit_vector)
            requires
                y == x & !((x - 1) as u64),
                x != 0,
        ;
        lemma_bits_seq_props(x ^ y);
        lemma_popcount_or(x ^ y, y);
        lemma_popcount_single(y);
        assert forall|i: int|
            0 <= i < bits_seq(x).len() implies single_bit(#[trigger] bits_seq(x)[i]) && bits_seq(
            x,
        )[i] & x == bits_seq(x)[i] by {
            if i > 0 {
                let e = bits_seq(x ^ y)[i - 1];
                assert(bits_seq(x)[i] == e);
                lemma_subset_trans(e, x ^ y, x);
            }
        }
    }
}

proof fn lemma_popcount_pos(x: u64)
    requires
        x != 0,
    ensures
        popcount(x) >= 1,
    decreases x,
{
    if x % 2 == 0 {
        lemma_popcount_pos(x / 2);
    }
}

proof fn lemma_popcount_bound(x: u64, w: nat)
    requires
        x < pow2(w),
    ensures
        popcount(x) <= w,
        popcount(x) == w <==> x == pow2(w) - 1,
    decreases w,
{
    if w == 0 {
        assert(pow2(0) == 1) by {
            vstd::arithmetic::power2::lemma2_to64();
        }
    } else {
        lemma_pow2_unfold(w);
        assert(x / 2 < pow2((w - 1) as nat)) by (nonlinear_arith)
            requires
                x < 2 * pow2((w - 1) as nat),
        ;
        lemma_popcount_bound(x / 2, (w - 1) as nat);
    }
}

/// Bit counts never exceed the board size, and only the full mask
/// reaches it.
proof fn lemma_popcount_le_64(x: u64)
    ensures
        popcount(x) <= 64,
        popcount(x) == 64 <==> x == FULL_BOARD,
{
    lemma2_to64_rest();
    lemma_popcount_bound(x, 64);
}

proof fn lemma_popcount_or(a: u64, b: u64)
    requires
        a & b == 0,
    ensures
        popcount(a | b) == popcount(a) + popcount(b),
    decreases a + b,
{
    if a == 0 && b == 0 {
        assert(a | b == 0) by (bit_vector)
            requires
                a == 0 && b == 0,
        ;
    } else {
        assert((a | b) % 2 == a % 2 + b % 2 && (a | b) / 2 == (a / 2) | (b / 2) && (a / 2) & (b
            / 2) == 0 && (a | b) != 0 && a / 2 + b / 2 < a + b) by (bit_vector)
            requires
                a & b == 0 && !(a == 0 && b == 0),
        ;
        lemma_popcount_or(a / 2, b / 2);
    }
}

proof fn lemma_popcount_single(p: u64)
    requires
        single_bit(p),
    ensures
        popcount(p) == 1,
    decreases p,
{
    if p == 1 {
        assert(popcount(0) == 0);
        assert(popcount(1) == 1);
    } else {
        assert(p % 2 == 0 && p / 2 != 0 && (p / 2) & ((p / 2 - 1) as u64) == 0) by (bit_vector)
            requires
                p != 0 && p != 1 && p & ((p - 1) as u64) == 0,
        ;
        lemma_popcount_single(p / 2);
    }
}

/// Disjoint occupancy masks hold at most 64 discs in all: the bound
/// every reachable position obeys.
pub proof fn lemma_disjoint_discs_bound(black: u64, white: u64)
    requires
        black & white == 0,
    ensures
        popcount(black) + popcount(white) <= 64,
{
    lemma_popcount_or(black, white);
    lemma_popcount_le_64(black | white);
}

/// Count the set bits of `x`, one low bit at a time.
pub fn popcount64(x: u64) -> (r: u32)
    ensures
        r == popcount(x),
{
    let mut v = x;
    let mut c: u32 = 0;
    proof {
        lemma_popcount_le_64(x);
    }
    while v != 0
        invariant
            c + popcount(v) == popcount(x),
            popcount(x) <= 64,
        decreases v,
    {
        proof {
            lemma_popcount_le_64(v);
            lemma_popcount_pos(v);
            assert(v & 1 == v % 2 && v >> 1u64 == v / 2) by (bit_vector);
        }
        c = c + (v & 1) as u32;
        v = v >> 1u64;
    }
    c
}

/// Six unrolled shift-and-intersect steps towards higher bit positions.
fn fill_left(seed: u64, data: u64, n: u64) -> (r: u64)
    requires
        n < 64,
    ensures
        r == fill_l(seed, data, n),
{
    let mut result = data & (seed << n);
    result = result | (data & (result << n));
    result = result | (data & (result << n));
    result = result | (data & (result << n));
    result = result | (data & (result << n));
    result = result | (data & (result << n));
    result
}

/// Six unrolled shift-and-intersect steps towards lower bit positions.
fn fill_right(seed: u64, data: u64, n: u64) -> (r: u64)
    requires
        n < 64,
    ensures
        r == fill_r(seed, data, n),
{
    let mut result = data & (seed >> n);
    result = result | (data & (result >> n));
    result = result | (data & (result >> n));
    result = result | (data & (result >> n));
    result = result | (data & (result >> n));
    result = result | (data & (result >> n));
    result
}

/// Candidate squares along one axis, in both of its directions.
fn legal_dir_calc(tp: u64, ntp: u64, mask: u64, n: u64) -> (r: u64)
    requires
        n < 64,
    ensures
        r == legal_dir(tp, ntp, mask, n),
{
    let e = ntp & mask;
    let l = fill_left(tp, e, n);
    let r0 = fill_right(tp, e, n);
    (l << n) | (r0 >> n)
}

/// Discs captured along one axis, in both of its directions.
fn flip_dir(tp: u64, ntp: u64, pos: u64, mask: u64, n: u64) -> (r: u64)
    requires
        n < 64,
    ensures
        r == flips_dir(tp, ntp, pos, mask, n),
{
    let e = ntp & mask;
    let l1 = fill_left(pos, e, n);
    let r1 = fill_right(tp, e, n);
    let r2 = fill_right(pos, e, n);
    let l2 = fill_left(tp, e, n);
    (l1 & r1) | (r2 & l2)
}

/// An immutable position: two occupancy masks and the number of turns
/// (moves and passes) taken so far.
pub struct Board {
    black: u64,
    white: u64,
    turns: usize,
}

impl Board {
    /// Occupancy mask of the first side.
    pub closed spec fn spec_black(&self) -> u64 {
        self.black
    }

    /// Occupancy mask of the second side.
    pub closed spec fn spec_white(&self) -> u64 {
        self.white
    }

    /// Turns taken so far.
    pub closed spec fn spec_turns(&self) -> usize {
        self.turns
    }

    /// Well-formedness: no square is held by both sides.
    pub open spec fn inv(&self) -> bool {
        self.spec_black() & self.spec_white() == 0
    }

    /// Mask of the side to move.
    pub open spec fn spec_mover(&self) -> u64 {
        if self.spec_turns() % 2 == 0 {
            self.spec_black()
        } else {
            self.spec_white()
        }
    }

    /// Mask of the side not to move.
    pub open spec fn spec_opponent(&self) -> u64 {
        if self.spec_turns() % 2 == 0 {
            self.spec_white()
        } else {
            self.spec_black()
        }
    }

    /// The side to move as a tag.
    pub open spec fn spec_turn(&self) -> Player {
        if self.spec_turns() % 2 == 0 {
            Player::Black
        } else {
            Player::White
        }
    }

    /// The starting position: two central discs each, first side to move.
    pub fn new() -> (r: Board)
        ensures
            r.spec_black() == BLACK_START,
            r.spec_white() == WHITE_START,
            r.spec_turns() == 0,
            r.inv(),
    {
        proof {
            assert(BLACK_START & WHITE_START == 0u64) by (bit_vector);
        }
        Board { black: BLACK_START, white: WHITE_START, turns: 0 }
    }

    /// A position built from explicit masks; refused when the masks overlap.
    pub fn from_masks(black: u64, white: u64, turns: usize) -> (r: Option<Board>)
        ensures
            r is Some <==> black & white == 0,
            r matches Some(b) ==> b.spec_black() == black && b.spec_white() == white
                && b.spec_turns() == turns && b.inv(),
    {
        if black & white == 0 {
            Some(Board { black, white, turns })
        } else {
            None
        }
    }

    /// Whose turn it is, from the parity of the turn counter.
    pub fn turn(&self) -> (r: Player)
        ensures
            r == self.spec_turn(),
    {
        if self.turns % 2 == 0 {
            Player::Black
        } else {
            Player::White
        }
    }

    pub fn turns(&self) -> (r: usize)
        ensures
            r == self.spec_turns(),
    {
        self.turns
    }

    pub fn black(&self) -> (r: u64)
        ensures
            r == self.spec_black(),
    {
        self.black
    }

    pub fn white(&self) -> (r: u64)
        ensures
            r == self.spec_white(),
    {
        self.white
    }

    /// Decode a move bitmask into the ordered list of its single-bit
    /// move masks, lowest bit first. The list has one entry per set bit
    /// of `n` and may be empty.
    pub fn split_moves(&self, n: u64) -> (r: Vec<u64>)
        ensures
            r@ == bits_seq(n),
            r@.len() == popcount(n),
            forall|i: int|
                0 <= i < r@.len() ==> single_bit(#[trigger] r@[i]) && r@[i] & n == r@[i],
    {
        let mut moves: Vec<u64> = Vec::new();
        let mut memo: u64 = n;
        while memo != 0
            invariant
                bits_seq(n) == moves@ + bits_seq(memo),
            decreases memo,
        {
            let y: u64 = memo & !(memo - 1);
            proof {
                assert(y == lowest_bit(memo));
                assert((memo ^ y) < memo) by (bit_vector)
                    requires
                        y == memo & !((memo - 1) as u64),
                        memo != 0,
                ;
                assert(moves@ + bits_seq(memo) =~= moves@.push(y) + bits_seq(memo ^ y));
            }
            moves.push(y);
            memo = memo ^ y;
        }
        proof {
            assert(moves@ + bits_seq(memo) =~= moves@);
            lemma_bits_seq_props(n);
        }
        moves
    }

    /// The bitmask of squares on which the side to move may place a disc.
    /// Zero means the side to move must pass.
    pub fn legal_moves(&self) -> (r: u64)
        ensures
            r == spec_legal_moves(self.spec_mover(), self.spec_opponent()),
            r & (self.spec_black() | self.spec_white()) == 0,
    {
        let tp = if self.turns % 2 == 0 {
            self.black
        } else {
            self.white
        };
        let ntp = if self.turns % 2 == 0 {
            self.white
        } else {
            self.black
        };
        let blank_board = !(tp | ntp);
        let a = legal_dir_calc(tp, ntp, LR_EDGE_MASK, 1);
        let b = legal_dir_calc(tp, ntp, TB_EDGE_MASK, 8);
        let c = legal_dir_calc(tp, ntp, LTRB_EDGE_MASK, 7);
        let d = legal_dir_calc(tp, ntp, LTRB_EDGE_MASK, 9);
        let possible = a | b | c | d;
        let r = possible & blank_board;
        proof {
            let lu = legal_union(tp, ntp);
            assert((lu & !(tp | ntp)) & (tp | ntp) == 0) by (bit_vector);
            assert((lu & !(tp | ntp)) & (ntp | tp) == 0) by (bit_vector);
        }
        r
    }

    /// Whether every square is occupied: true exactly when the union of
    /// the two masks covers all 64 bits.
    pub fn end(&self) -> (r: bool)
        requires
            self.inv(),
        ensures
            r == ((self.spec_black() | self.spec_white()) == FULL_BOARD),
    {
        let u = self.white ^ self.black;
        proof {
            let b = self.black;
            let w = self.white;
            assert((w ^ b) == (b | w)) by (bit_vector)
                requires
                    b & w == 0,
            ;
            lemma_popcount_le_64(u);
        }
        popcount64(u) == 64
    }

    /// Apply the move `position` for the side to move: place one disc
    /// and flip every captured opponent disc. `position` must be one of
    /// the bits of the current legal-move mask; legality is not
    /// re-checked here. A real move adds exactly one disc to the board.
    pub fn reverse(&self, position: u64) -> (r: Board)
        requires
            self.inv(),
            single_bit(position),
            position & spec_legal_moves(self.spec_mover(), self.spec_opponent()) == position,
            self.spec_turns() < usize::MAX,
        ensures
            r.spec_turns() == self.spec_turns() + 1,
            r.spec_black() == spec_reverse(
                self.spec_black(),
                self.spec_white(),
                self.spec_turns(),
                position,
            ).0,
            r.spec_white() == spec_reverse(
                self.spec_black(),
                self.spec_white(),
                self.spec_turns(),
                position,
            ).1,
            r.inv(),
            popcount(r.spec_black()) + popcount(r.spec_white()) == popcount(self.spec_black())
                + popcount(self.spec_white()) + 1,
            self.spec_turns() % 2 == 0 ==> popcount(r.spec_white()) < popcount(self.spec_white()),
            self.spec_turns() % 2 == 1 ==> popcount(r.spec_black()) < popcount(self.spec_black()),
    {
        let tp = if self.turns % 2 == 0 {
            self.black
        } else {
            self.white
        };
        let ntp = if self.turns % 2 == 0 {
            self.white
        } else {
            self.black
        };
        let t1 = flip_dir(tp, ntp, position, LR_EDGE_MASK, 1);
        let t2 = flip_dir(tp, ntp, position, TB_EDGE_MASK, 8);
        let t3 = flip_dir(tp, ntp, position, LTRB_EDGE_MASK, 7);
        let t4 = flip_dir(tp, ntp, position, LTRB_EDGE_MASK, 9);
        let target = t1 | t2 | t3 | t4;
        let new_tp = tp ^ position ^ target;
        let new_ntp = ntp ^ target;
        proof {
            let t = spec_flips(tp, ntp, position);
            lemma_flips_subset(tp, ntp, position);
            let b = self.spec_black();
            let w = self.spec_white();
            assert(tp & ntp == 0) by (bit_vector)
                requires
                    b & w == 0,
                    (tp == b && ntp == w) || (tp == w && ntp == b),
            ;
            let lu = legal_union(tp, ntp);
            assert(position & (tp | ntp) == 0) by (bit_vector)
                requires
                    position & (lu & !(tp | ntp)) == position,
            ;
            assert((tp ^ position ^ t) == ((tp | position) | t) && (ntp ^ t) == (ntp & !t) && (tp
                ^ position ^ t) & (ntp ^ t) == 0 && (ntp ^ t) & (tp ^ position ^ t) == 0 && tp
                & position == 0 && (tp | position) & t == 0 && (ntp & !t) & t == 0 && ((ntp & !t)
                | t) == ntp) by (bit_vector)
                requires
                    tp & ntp == 0,
                    t & ntp == t,
                    position & (tp | ntp) == 0,
            ;
            lemma_popcount_or(tp, position);
            lemma_popcount_or(tp | position, t);
            lemma_popcount_single(position);
            lemma_popcount_or(ntp & !t, t);
            lemma_flips_nonzero(tp, ntp, position);
            lemma_popcount_pos(t);
        }
        let turns = self.turns + 1;
        if self.turns % 2 == 0 {
            Board { black: new_tp, white: new_ntp, turns }
        } else {
            Board { black: new_ntp, white: new_tp, turns }
        }
    }

    /// Compare disc counts: strictly more discs wins, equal counts draw.
    /// Callable in any state, full board or not.
    pub fn judge(&self) -> (r: GameResult)
        ensures
            popcount(self.spec_white()) == popcount(self.spec_black()) ==> r == GameResult::Draw,
            popcount(self.spec_white()) > popcount(self.spec_black()) ==> r == GameResult::Winner(
                Player::White,
            ),
            popcount(self.spec_white()) < popcount(self.spec_black()) ==> r == GameResult::Winner(
                Player::Black,
            ),
    {
        let white_count = popcount64(self.white);
        let black_count = popcount64(self.black);
        if white_count == black_count {
            GameResult::Draw
        } else if white_count > black_count {
            GameResult::Winner(Player::White)
        } else {
            GameResult::Winner(Player::Black)
        }
    }

    /// What the square at display row `i` and column `j` holds.
    pub open spec fn spec_piece_at(&self, i: int, j: int) -> Piece
        recommends
            0 <= i < 8,
            0 <= j < 8,
    {
        let pos = 1u64 << ((8 * (7 - i) + 7 - j) as u64);
        if self.spec_white() & pos == pos {
            Piece::White
        } else if self.spec_black() & pos == pos {
            Piece::Black
        } else {
            Piece::Empty
        }
    }

    /// The glyphs of display row `i`, left to right: the textual form
    /// of one rank of the board.
    pub fn row_chars(&self, i: usize) -> (r: Vec<char>)
        requires
            i < 8,
        ensures
            r@.len() == 8,
            forall|j: int| 0 <= j < 8 ==> r@[j] == self.spec_piece_at(i as int, j).spec_char(),
    {
        let mut row: Vec<char> = Vec::new();
        let mut j: usize = 0;
        while j < 8
            invariant
                i < 8,
                j <= 8,
                row@.len() == j,
                forall|k: int|
                    0 <= k < j ==> row@[k] == self.spec_piece_at(i as int, k).spec_char(),
            decreases 8 - j,
        {
            let shift: u64 = (8 * (7 - i) + 7 - j) as u64;
            let pos: u64 = 1u64 << shift;
            let piece = if self.white & pos == pos {
                Piece::White
            } else if self.black & pos == pos {
                Piece::Black
            } else {
                Piece::Empty
            };
            row.push(piece.to_char());
            j = j + 1;
        }
        row
    }

    /// Advance the turn without placing a disc. The occupancy masks are
    /// left exactly as they were; only the turn counter moves.
    pub fn pass(&self) -> (r: Board)
        requires
            self.spec_turns() < usize::MAX,
        ensures
            r.spec_black() == self.spec_black(),
            r.spec_white() == self.spec_white(),
            r.spec_turns() == self.spec_turns() + 1,
            self.inv() ==> r.inv(),
    {
        Board { black: self.black, white: self.white, turns: self.turns + 1 }
    }
}

} // verus!
