use vstd::prelude::*;

use crate::bitboard::BitBoard;
use crate::board::PieceKind;

verus! {

/// The material worth of a piece kind.
pub open spec fn spec_piece_rank(kind: PieceKind) -> int {
    match kind {
        PieceKind::B => 5,
        PieceKind::K => 50,
        PieceKind::N => 3,
        PieceKind::R => 5,
        PieceKind::P => 1,
    }
}

pub fn piece_rank(kind: &PieceKind) -> (r: i32)
    ensures
        r as int == spec_piece_rank(*kind),
{
    match kind {
        PieceKind::B => 5,
        PieceKind::K => 50,
        PieceKind::N => 3,
        PieceKind::R => 5,
        PieceKind::P => 1,
    }
}

/// The number of set bits among the lowest `n` bits of `x`.
pub open spec fn spec_count_ones(x: u64, n: nat) -> int
    decreases n,
{
    if n == 0 {
        0
    } else {
        ((x >> ((n - 1) as u64)) & 1) as int + spec_count_ones(x, (n - 1) as nat)
    }
}

/// The popcount stays between 0 and the number of bits considered.
pub proof fn lemma_count_ones_bound(x: u64, n: nat)
    requires
        n <= 64,
    ensures
        0 <= spec_count_ones(x, n) <= n,
    decreases n,
{
    if n > 0 {
        lemma_count_ones_bound(x, (n - 1) as nat);
        crate::bitlemmas::lemma_bit01(x, (n - 1) as u64);
    }
}

/// Counts the set bits of a board word.
fn count_bits(x: u64) -> (r: u32)
    ensures
        r as int == spec_count_ones(x, 64),
        r <= 64,
{
    let mut r: u32 = 0;
    let mut i: u64 = 0;
    while i < 64
        invariant
            i <= 64,
            r as int == spec_count_ones(x, i as nat),
            r <= i,
        decreases 64 - i,
    {
        proof {
            crate::bitlemmas::lemma_bit01(x, i);
        }
        r = r + ((x >> i) & 1) as u32;
        i = i + 1;
    }
    r
}

/// The weighted material balance from player one's point of view.
pub open spec fn spec_eval_bitboard(b: BitBoard) -> int {
    5 * spec_count_ones(b.bishop_mask & b.player_one_mask, 64) + 50 * spec_count_ones(
        b.king_mask & b.player_one_mask,
        64,
    ) + 3 * spec_count_ones(b.knight_mask & b.player_one_mask, 64) + 5 * spec_count_ones(
        b.rook_mask & b.player_one_mask,
        64,
    ) + 2 * spec_count_ones(b.pawn_mask & b.player_one_mask, 64) - 5 * spec_count_ones(
        b.bishop_mask & !b.player_one_mask,
        64,
    ) - 50 * spec_count_ones(b.king_mask & !b.player_one_mask, 64) - 3 * spec_count_ones(
        b.knight_mask & !b.player_one_mask,
        64,
    ) - 5 * spec_count_ones(b.rook_mask & !b.player_one_mask, 64) - 2 * spec_count_ones(
        b.pawn_mask & !b.player_one_mask,
        64,
    )
}

/// A static evaluator over the packed position: piece counts weighted by
/// rank, player one positive.
pub fn eval_bitboard(b: &BitBoard) -> (r: i32)
    ensures
        r as int == spec_eval_bitboard(*b),
{
    let mut eval: i32 = 0;
    eval = eval + 5 * (count_bits(b.bishop_mask & b.player_one_mask) as i32);
    eval = eval + 50 * (count_bits(b.king_mask & b.player_one_mask) as i32);
    eval = eval + 3 * (count_bits(b.knight_mask & b.player_one_mask) as i32);
    eval = eval + 5 * (count_bits(b.rook_mask & b.player_one_mask) as i32);
    eval = eval + 2 * (count_bits(b.pawn_mask & b.player_one_mask) as i32);
    eval = eval - 5 * (count_bits(b.bishop_mask & !b.player_one_mask) as i32);
    eval = eval - 50 * (count_bits(b.king_mask & !b.player_one_mask) as i32);
    eval = eval - 3 * (count_bits(b.knight_mask & !b.player_one_mask) as i32);
    eval = eval - 5 * (count_bits(b.rook_mask & !b.player_one_mask) as i32);
    eval = eval - 2 * (count_bits(b.pawn_mask & !b.player_one_mask) as i32);
    eval
}

} // verus!
