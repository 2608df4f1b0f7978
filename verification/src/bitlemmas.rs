use vstd::prelude::*;

use crate::bitboard::{
    mask_ok, proj_bwd_iter, proj_fwd_iter, proj_step_bwd, proj_step_fwd, spec_bishop_moves,
    spec_do_move, spec_explosion_mask, spec_flip, spec_has_king_one, spec_has_king_two,
    spec_invert, spec_king_moves, spec_knight_moves, spec_move_invert, spec_move_word_down,
    spec_move_word_up, spec_moves, spec_pawn_moves, spec_piece_at, spec_project_bwd,
    spec_project_fwd, spec_rook_moves, spec_winner, BitBoard, BitBoardMove, BOARD_BITS, FLIP_K1,
    FLIP_K2, FLIP_K3, HIGH_BIT, INIT_BISHOP, INIT_KING, INIT_KNIGHT, INIT_ONE, INIT_PAWN,
    INIT_PIECE, INIT_ROOK,
};
use crate::board::{spec_adjacent, spec_mirror_piece, spec_other, Player};

verus! {

/// A packed square index below 63 splits into a row below 9 and a column
/// below 7 that recombine to the index.
pub proof fn lemma_row_col(f: u8)
    by (bit_vector)
    requires
        f < 63,
    ensures
        f / 7 <= 8,
        f % 7 <= 6,
        7 * (f / 7) + f % 7 == f,
{
}

/// The vertical flip distributes over the boolean operations, stays within
/// the 63 square bits, and is its own inverse there.
pub proof fn lemma_flip_or(x: u64, y: u64)
    by (bit_vector)
    ensures
        spec_flip(x | y) == spec_flip(x) | spec_flip(y),
{
}

pub proof fn lemma_flip_bound(x: u64)
    by (bit_vector)
    ensures
        mask_ok(spec_flip(x)),
{
}

pub proof fn lemma_flip_involution(x: u64)
    by (bit_vector)
    requires
        mask_ok(x),
    ensures
        spec_flip(spec_flip(x)) == x,
{
}

pub proof fn lemma_flip_subset(x: u64, y: u64)
    by (bit_vector)
    requires
        x & !y == 0,
    ensures
        spec_flip(x) & !spec_flip(y) == 0,
{
}

pub proof fn lemma_flip_disjoint(x: u64, y: u64)
    by (bit_vector)
    requires
        x & y == 0,
    ensures
        spec_flip(x) & spec_flip(y) == 0,
{
}

pub proof fn lemma_flip_xor(x: u64, y: u64)
    by (bit_vector)
    ensures
        spec_flip(x ^ y) == spec_flip(x) ^ spec_flip(y),
{
}

/// Complementing ownership within occupancy keeps it a subset of occupancy,
/// and complementing twice restores it.
pub proof fn lemma_owner_complement(p: u64, o: u64)
    by (bit_vector)
    requires
        o & !p == 0,
    ensures
        (p ^ o) & !p == 0,
        p ^ (p ^ o) == o,
{
}

/// Each of five masks joining into a bounded union is itself bounded.
pub proof fn lemma_union_parts_bounded(a: u64, b: u64, c: u64, d: u64, e: u64, p: u64)
    by (bit_vector)
    requires
        (a | b | c | d | e) == p,
        p & HIGH_BIT == 0,
    ensures
        a & HIGH_BIT == 0,
        b & HIGH_BIT == 0,
        c & HIGH_BIT == 0,
        d & HIGH_BIT == 0,
        e & HIGH_BIT == 0,
{
}

/// A subset of a bounded mask is bounded.
pub proof fn lemma_subset_bounded(x: u64, p: u64)
    by (bit_vector)
    requires
        x & !p == 0,
        p & HIGH_BIT == 0,
    ensures
        x & HIGH_BIT == 0,
{
}

/// The fixed initial layout satisfies the representation invariant.
pub proof fn lemma_init_wf()
    by (bit_vector)
    ensures
        INIT_PIECE & HIGH_BIT == 0,
        INIT_ONE & !INIT_PIECE == 0,
        (INIT_BISHOP | INIT_KING | INIT_KNIGHT | INIT_ROOK | INIT_PAWN) == INIT_PIECE,
        INIT_BISHOP & INIT_KING == 0,
        INIT_BISHOP & INIT_KNIGHT == 0,
        INIT_BISHOP & INIT_ROOK == 0,
        INIT_BISHOP & INIT_PAWN == 0,
        INIT_KING & INIT_KNIGHT == 0,
        INIT_KING & INIT_ROOK == 0,
        INIT_KING & INIT_PAWN == 0,
        INIT_KNIGHT & INIT_ROOK == 0,
        INIT_KNIGHT & INIT_PAWN == 0,
        INIT_ROOK & INIT_PAWN == 0,
{
}

/// A bit set below index 64 in a word that avoids the spare bit must sit on
/// a square, and its singleton mask avoids the spare bit too.
pub proof fn lemma_bit_below_63(x: u64, d: u64)
    by (bit_vector)
    requires
        x & HIGH_BIT == 0,
        d < 64,
        (x >> d) & 1 == 1,
    ensures
        d < 63,
        (1u64 << d) & HIGH_BIT == 0,
{
}

/// Intersecting with a word that avoids the spare bit avoids it too.
pub proof fn lemma_and_bound(x: u64, y: u64)
    by (bit_vector)
    requires
        x & HIGH_BIT == 0,
    ensures
        (x & y) & HIGH_BIT == 0,
        (y & x) & HIGH_BIT == 0,
{
}

pub proof fn lemma_or_bound(x: u64, y: u64)
    by (bit_vector)
    requires
        x & HIGH_BIT == 0,
        y & HIGH_BIT == 0,
    ensures
        (x | y) & HIGH_BIT == 0,
{
}

/// An occupied square owned by the mover holds a piece of one of the five
/// kinds.
pub proof fn lemma_kind_at_bit(a: u64, b: u64, c: u64, d: u64, e: u64, p: u64, o: u64, f: u64)
    by (bit_vector)
    requires
        (a | b | c | d | e) == p,
        f < 64,
        ((p & o) >> f) & 1 == 1,
    ensures
        (a & (1u64 << f) != 0) || (b & (1u64 << f) != 0) || (c & (1u64 << f) != 0) || (d & (1u64
            << f) != 0) || (e & (1u64 << f) != 0),
{
}

/// One projection round keeps the spare bit clear if the shifted ray mask
/// does.
pub proof fn lemma_zero_bound()
    by (bit_vector)
    ensures
        0u64 & HIGH_BIT == 0,
{
}

/// Zero is the identity of bitwise or.
pub proof fn lemma_or_zero(x: u64)
    by (bit_vector)
    ensures
        (0u64 | x) == x,
{
}

pub proof fn lemma_proj_step_fwd_bound(piece: u64, pos: u64, mask: u64, delta: u64, acc: u64)
    by (bit_vector)
    requires
        acc & HIGH_BIT == 0,
        (mask << delta) & HIGH_BIT == 0,
    ensures
        proj_step_fwd(piece, pos, mask, delta, acc) & HIGH_BIT == 0,
{
}

pub proof fn lemma_proj_step_bwd_bound(piece: u64, pos: u64, mask: u64, delta: u64, acc: u64)
    by (bit_vector)
    requires
        acc & HIGH_BIT == 0,
        delta >= 1,
    ensures
        proj_step_bwd(piece, pos, mask, delta, acc) & HIGH_BIT == 0,
{
}

pub proof fn lemma_proj_fwd_iter_bound(piece: u64, pos: u64, mask: u64, delta: u64, n: nat)
    requires
        (mask << delta) & HIGH_BIT == 0,
    ensures
        proj_fwd_iter(piece, pos, mask, delta, n) & HIGH_BIT == 0,
    decreases n,
{
    if n == 0 {
        lemma_zero_bound();
    } else {
        lemma_proj_fwd_iter_bound(piece, pos, mask, delta, (n - 1) as nat);
        lemma_proj_step_fwd_bound(
            piece,
            pos,
            mask,
            delta,
            proj_fwd_iter(piece, pos, mask, delta, (n - 1) as nat),
        );
    }
}

pub proof fn lemma_proj_bwd_iter_bound(piece: u64, pos: u64, mask: u64, delta: u64, n: nat)
    requires
        delta >= 1,
    ensures
        proj_bwd_iter(piece, pos, mask, delta, n) & HIGH_BIT == 0,
    decreases n,
{
    if n == 0 {
        lemma_zero_bound();
    } else {
        lemma_proj_bwd_iter_bound(piece, pos, mask, delta, (n - 1) as nat);
        lemma_proj_step_bwd_bound(
            piece,
            pos,
            mask,
            delta,
            proj_bwd_iter(piece, pos, mask, delta, (n - 1) as nat),
        );
    }
}

/// The ray masks of the two sliding pieces, shifted by their deltas, stay
/// within the square bits.
pub proof fn lemma_proj_const_bounds()
    by (bit_vector)
    ensures
        (0x007efdfbf7efdfbfu64 << 8) & HIGH_BIT == 0,
        (0x00fdfbf7efdfbf7eu64 << 6) & HIGH_BIT == 0,
        (0x3f7efdfbf7efdfbfu64 << 1) & HIGH_BIT == 0,
        (0x00ffffffffffffffu64 << 7) & HIGH_BIT == 0,
{
}

pub proof fn lemma_bishop_bound(piece: u64, one: u64, pos: u64)
    requires
        mask_ok(pos),
    ensures
        mask_ok(spec_bishop_moves(piece, one, pos)),
{
    lemma_proj_const_bounds();
    lemma_proj_bwd_iter_bound(piece, pos, 0x7efdfbf7efdfbf00u64, 8, 8);
    lemma_proj_bwd_iter_bound(piece, pos, 0x3f7efdfbf7efdf80u64, 6, 8);
    lemma_proj_fwd_iter_bound(piece, pos, 0x007efdfbf7efdfbfu64, 8, 8);
    lemma_proj_fwd_iter_bound(piece, pos, 0x00fdfbf7efdfbf7eu64, 6, 8);
    let pb1 = spec_project_bwd(piece, one, pos, 0x7efdfbf7efdfbf00u64, 8);
    let pb2 = spec_project_bwd(piece, one, pos, 0x3f7efdfbf7efdf80u64, 6);
    let pf1 = spec_project_fwd(piece, one, pos, 0x007efdfbf7efdfbfu64, 8);
    let pf2 = spec_project_fwd(piece, one, pos, 0x00fdfbf7efdfbf7eu64, 6);
    lemma_and_bound(proj_bwd_iter(piece, pos, 0x7efdfbf7efdfbf00u64, 8, 8), !(piece & one));
    lemma_and_bound(proj_bwd_iter(piece, pos, 0x3f7efdfbf7efdf80u64, 6, 8), !(piece & one));
    lemma_and_bound(proj_fwd_iter(piece, pos, 0x007efdfbf7efdfbfu64, 8, 8), !(piece & one));
    lemma_and_bound(proj_fwd_iter(piece, pos, 0x00fdfbf7efdfbf7eu64, 6, 8), !(piece & one));
    lemma_or_bound(pb1, pb2);
    lemma_and_bound(pb1 | pb2, piece & !one);
    lemma_or_bound((pb1 | pb2) & (piece & !one), pf1);
    lemma_or_bound(((pb1 | pb2) & (piece & !one)) | pf1, pf2);
    lemma_or_bound((((pb1 | pb2) & (piece & !one)) | pf1) | pf2, pos);
}

pub proof fn lemma_rook_bound(piece: u64, one: u64, pos: u64)
    requires
        mask_ok(pos),
    ensures
        mask_ok(spec_rook_moves(piece, one, pos)),
{
    lemma_proj_const_bounds();
    lemma_proj_fwd_iter_bound(piece, pos, 0x3f7efdfbf7efdfbfu64, 1, 8);
    lemma_proj_bwd_iter_bound(piece, pos, 0x7efdfbf7efdfbf7eu64, 1, 8);
    lemma_proj_bwd_iter_bound(piece, pos, 0x7fffffffffffff80u64, 7, 8);
    lemma_proj_fwd_iter_bound(piece, pos, 0x00ffffffffffffffu64, 7, 8);
    let pa = spec_project_fwd(piece, one, pos, 0x3f7efdfbf7efdfbfu64, 1);
    let pb = spec_project_bwd(piece, one, pos, 0x7efdfbf7efdfbf7eu64, 1);
    let pc = spec_project_bwd(piece, one, pos, 0x7fffffffffffff80u64, 7);
    let pd = spec_project_fwd(piece, one, pos, 0x00ffffffffffffffu64, 7);
    lemma_and_bound(proj_fwd_iter(piece, pos, 0x3f7efdfbf7efdfbfu64, 1, 8), !(piece & one));
    lemma_and_bound(proj_bwd_iter(piece, pos, 0x7efdfbf7efdfbf7eu64, 1, 8), !(piece & one));
    lemma_and_bound(proj_bwd_iter(piece, pos, 0x7fffffffffffff80u64, 7, 8), !(piece & one));
    lemma_and_bound(proj_fwd_iter(piece, pos, 0x00ffffffffffffffu64, 7, 8), !(piece & one));
    lemma_and_bound(pc, piece & !one);
    lemma_or_bound(pc & (piece & !one), pd);
    lemma_or_bound((pc & (piece & !one)) | pd, pa);
    lemma_or_bound(((pc & (piece & !one)) | pd) | pa, pb);
    lemma_or_bound((((pc & (piece & !one)) | pd) | pa) | pb, pos);
}

pub proof fn lemma_king_bound(piece: u64, one: u64, pos: u64)
    by (bit_vector)
    requires
        pos & HIGH_BIT == 0,
    ensures
        spec_king_moves(piece, one, pos) & HIGH_BIT == 0,
{
}

pub proof fn lemma_pawn_bound(piece: u64, one: u64, pos: u64)
    by (bit_vector)
    requires
        pos & HIGH_BIT == 0,
    ensures
        spec_pawn_moves(piece, one, pos) & HIGH_BIT == 0,
{
}

pub proof fn lemma_knight_bound(piece: u64, one: u64, pos: u64)
    by (bit_vector)
    requires
        pos & HIGH_BIT == 0,
    ensures
        spec_knight_moves(piece, one, pos) & HIGH_BIT == 0,
{
}

/// An occupied square holds a piece of one of the five kinds, for any probe
/// mask meeting the occupancy.
pub proof fn lemma_kind_at_piece(a: u64, b: u64, c: u64, d: u64, e: u64, p: u64, h: u64)
    by (bit_vector)
    requires
        (a | b | c | d | e) == p,
        p & h != 0,
    ensures
        (a & h != 0) || (b & h != 0) || (c & h != 0) || (d & h != 0) || (e & h != 0),
{
}

/// A single bit of a word is zero or one.
pub proof fn lemma_bit01(x: u64, s: u64)
    by (bit_vector)
    requires
        s < 64,
    ensures
        (x >> s) & 1 <= 1,
{
}

/// Restricting two words by a common mask commutes with union and preserves
/// disjointness and inclusion.
pub proof fn lemma_mask_restrict(x: u64, y: u64, z: u64)
    by (bit_vector)
    ensures
        (x & z) | (y & z) == (x | y) & z,
        x & y == 0 ==> (x & z) & (y & z) == 0,
        x & !y == 0 ==> (x & z) & !(y & z) == 0,
{
}

/// Moving a bit up a word commutes with union and preserves disjointness,
/// inclusion and the clear spare bit.
pub proof fn lemma_move_up_props(x: u64, y: u64, f: u64, d: u64)
    by (bit_vector)
    requires
        f < d,
        d < 63,
    ensures
        spec_move_word_up(x, f, d) | spec_move_word_up(y, f, d) == spec_move_word_up(x | y, f, d),
        x & y == 0 ==> spec_move_word_up(x, f, d) & spec_move_word_up(y, f, d) == 0,
        x & !y == 0 ==> spec_move_word_up(x, f, d) & !spec_move_word_up(y, f, d) == 0,
        x & HIGH_BIT == 0 ==> spec_move_word_up(x, f, d) & HIGH_BIT == 0,
{
}

pub proof fn lemma_move_down_props(x: u64, y: u64, f: u64, d: u64)
    by (bit_vector)
    requires
        d < f,
        f < 63,
    ensures
        spec_move_word_down(x, f, d) | spec_move_word_down(y, f, d) == spec_move_word_down(
            x | y,
            f,
            d,
        ),
        x & y == 0 ==> spec_move_word_down(x, f, d) & spec_move_word_down(y, f, d) == 0,
        x & !y == 0 ==> spec_move_word_down(x, f, d) & !spec_move_word_down(y, f, d) == 0,
        x & HIGH_BIT == 0 ==> spec_move_word_down(x, f, d) & HIGH_BIT == 0,
{
}

/// Applying a move preserves the representation invariant.
pub proof fn lemma_do_move_wf(bd: BitBoard, mov: BitBoardMove)
    requires
        bd.wf(),
        mov.from_pos < 63,
        mov.dest_pos < 63,
    ensures
        spec_do_move(bd, mov).wf(),
{
    let p = bd.piece_mask;
    let o = bd.player_one_mask;
    let bi = bd.bishop_mask;
    let k = bd.king_mask;
    let n = bd.knight_mask;
    let r = bd.rook_mask;
    let w = bd.pawn_mask;
    let f = mov.from_pos as u64;
    let d = mov.dest_pos as u64;
    if f == d {
        let z = !spec_explosion_mask(f);
        lemma_and_bound(p, z);
        lemma_mask_restrict(bi, k, z);
        lemma_mask_restrict(bi | k, n, z);
        lemma_mask_restrict(bi | k | n, r, z);
        lemma_mask_restrict(bi | k | n | r, w, z);
        lemma_mask_restrict(o, p, z);
        lemma_mask_restrict(bi, n, z);
        lemma_mask_restrict(bi, r, z);
        lemma_mask_restrict(bi, w, z);
        lemma_mask_restrict(k, n, z);
        lemma_mask_restrict(k, r, z);
        lemma_mask_restrict(k, w, z);
        lemma_mask_restrict(n, r, z);
        lemma_mask_restrict(n, w, z);
        lemma_mask_restrict(r, w, z);
    } else if f < d {
        lemma_move_up_props(p, p, f, d);
        lemma_move_up_props(bi, k, f, d);
        lemma_move_up_props(bi | k, n, f, d);
        lemma_move_up_props(bi | k | n, r, f, d);
        lemma_move_up_props(bi | k | n | r, w, f, d);
        lemma_move_up_props(o, p, f, d);
        lemma_move_up_props(bi, n, f, d);
        lemma_move_up_props(bi, r, f, d);
        lemma_move_up_props(bi, w, f, d);
        lemma_move_up_props(k, n, f, d);
        lemma_move_up_props(k, r, f, d);
        lemma_move_up_props(k, w, f, d);
        lemma_move_up_props(n, r, f, d);
        lemma_move_up_props(n, w, f, d);
        lemma_move_up_props(r, w, f, d);
    } else {
        lemma_move_down_props(p, p, f, d);
        lemma_move_down_props(bi, k, f, d);
        lemma_move_down_props(bi | k, n, f, d);
        lemma_move_down_props(bi | k | n, r, f, d);
        lemma_move_down_props(bi | k | n | r, w, f, d);
        lemma_move_down_props(o, p, f, d);
        lemma_move_down_props(bi, n, f, d);
        lemma_move_down_props(bi, r, f, d);
        lemma_move_down_props(bi, w, f, d);
        lemma_move_down_props(k, n, f, d);
        lemma_move_down_props(k, r, f, d);
        lemma_move_down_props(k, w, f, d);
        lemma_move_down_props(n, r, f, d);
        lemma_move_down_props(n, w, f, d);
        lemma_move_down_props(r, w, f, d);
    }
}

/// A side that still has a king implies the king word is nonzero.
pub proof fn lemma_king_nonzero(p: u64, o: u64, k: u64)
    by (bit_vector)
    requires
        p & o & k != 0 || p & !o & k != 0,
    ensures
        k != 0,
{
}

/// Law: the game is undecided exactly when both kings are on the board and
/// the side to move has at least one legal move.
pub proof fn lemma_winner_none_iff(bd: BitBoard)
    requires
        bd.wf(),
    ensures
        spec_winner(bd) is None <==> (spec_has_king_one(bd) && spec_has_king_two(bd)
            && spec_moves(bd).len() > 0),
{
    if spec_has_king_one(bd) {
        lemma_king_nonzero(bd.piece_mask, bd.player_one_mask, bd.king_mask);
    }
}

/// Law: player two's moves are exactly player one's moves of the reflected
/// position, reflected back, in order.
pub proof fn lemma_moves_reflection(bd: BitBoard)
    requires
        bd.wf(),
        bd.current_player == Player::PlayerTwo,
    ensures
        spec_moves(bd) == spec_moves(spec_invert(bd)).map_values(
            |m: BitBoardMove| spec_move_invert(m),
        ),
{
    assert(spec_invert(bd).current_player == Player::PlayerOne);
}

/// The explosion mask holds exactly the origin's existing 3x3 neighborhood.
pub proof fn lemma_explosion_mask_bits(fr: u64, fc: u64, r: u64, c: u64)
    by (bit_vector)
    requires
        fr < 9,
        fc < 7,
        r < 9,
        c < 7,
    ensures
        ((spec_explosion_mask((7 * fr + fc) as u64) >> ((7 * r + c) as u64)) & 1 == 1) <==> ((fr
            <= r + 1 && r <= fr + 1) && (fc <= c + 1 && c <= fc + 1)),
{
}

/// The two ways of probing one bit agree, and clearing by a mask clears
/// exactly the mask's bits.
pub proof fn lemma_bit_probe(x: u64, em: u64, s: u64)
    by (bit_vector)
    requires
        s < 64,
    ensures
        (x & (1u64 << s) != 0) <==> ((x >> s) & 1 == 1),
        ((em >> s) & 1 == 1) ==> (x & !em) & (1u64 << s) == 0,
        ((em >> s) & 1 == 0) ==> ((x & !em) & (1u64 << s)) == (x & (1u64 << s)),
{
}

/// Law: applying a from == dest move on a square empties that square and
/// its existing neighbors, of either owner and any kind, and leaves every
/// other square exactly as it was.
pub proof fn lemma_explosion_squares(bd: BitBoard, fr: u8, fc: u8, r: u8, c: u8)
    requires
        bd.wf(),
        fr < 9,
        fc < 7,
        r < 9,
        c < 7,
    ensures
        ({
            let b2 = spec_do_move(
                bd,
                BitBoardMove { from_pos: (7 * fr + fc) as u8, dest_pos: (7 * fr + fc) as u8 },
            );
            if spec_adjacent(r as int, c as int, fr as int, fc as int) {
                spec_piece_at(b2, r, c) is None
            } else {
                spec_piece_at(b2, r, c) == spec_piece_at(bd, r, c)
            }
        }),
{
    let f = (7 * fr + fc) as u64;
    let s = (7 * r + c) as u64;
    let em = spec_explosion_mask(f);
    lemma_explosion_mask_bits(fr as u64, fc as u64, r as u64, c as u64);
    lemma_bit01(em, s);
    lemma_bit_probe(bd.piece_mask, em, s);
    lemma_bit_probe(bd.player_one_mask, em, s);
    lemma_bit_probe(bd.bishop_mask, em, s);
    lemma_bit_probe(bd.king_mask, em, s);
    lemma_bit_probe(bd.knight_mask, em, s);
    lemma_bit_probe(bd.rook_mask, em, s);
    lemma_bit_probe(bd.pawn_mask, em, s);
}

/// The vertical flip is the row mirror: bit (r, c) of the flipped word is
/// bit (8 - r, c) of the original.
pub proof fn lemma_flip_row_mirror(x: u64, r: u64, c: u64)
    by (bit_vector)
    requires
        r < 9,
        c < 7,
    ensures
        ((spec_flip(x) >> ((7 * r + c) as u64)) & 1) == ((x >> ((7 * (8 - r) + c) as u64)) & 1),
{
}

/// One bit of an exclusive or.
pub proof fn lemma_xor_bit(x: u64, y: u64, s: u64)
    by (bit_vector)
    requires
        s < 64,
    ensures
        (((x ^ y) >> s) & 1 == 1) <==> ((x >> s) & 1 == 1) != ((y >> s) & 1 == 1),
{
}

/// Law: reflection mirrors the board square by square, swapping owners and
/// keeping kinds.
pub proof fn lemma_invert_piece_at(bd: BitBoard, r: u8, c: u8)
    requires
        bd.wf(),
        r < 9,
        c < 7,
    ensures
        spec_piece_at(spec_invert(bd), r, c) == spec_mirror_piece(
            spec_piece_at(bd, (8 - r) as u8, c),
        ),
{
    let s = (7 * r + c) as u64;
    let s2 = (7 * (8 - r) + c) as u64;
    let p = bd.piece_mask;
    let o = bd.player_one_mask;
    lemma_flip_row_mirror(p, r as u64, c as u64);
    lemma_flip_row_mirror(p ^ o, r as u64, c as u64);
    lemma_flip_row_mirror(bd.bishop_mask, r as u64, c as u64);
    lemma_flip_row_mirror(bd.king_mask, r as u64, c as u64);
    lemma_flip_row_mirror(bd.knight_mask, r as u64, c as u64);
    lemma_flip_row_mirror(bd.rook_mask, r as u64, c as u64);
    lemma_flip_row_mirror(bd.pawn_mask, r as u64, c as u64);
    lemma_xor_bit(p, o, s2);
    lemma_bit_probe(spec_flip(p), 0, s);
    lemma_bit_probe(spec_flip(p ^ o), 0, s);
    lemma_bit_probe(spec_flip(bd.bishop_mask), 0, s);
    lemma_bit_probe(spec_flip(bd.king_mask), 0, s);
    lemma_bit_probe(spec_flip(bd.knight_mask), 0, s);
    lemma_bit_probe(spec_flip(bd.rook_mask), 0, s);
    lemma_bit_probe(spec_flip(bd.pawn_mask), 0, s);
    lemma_bit_probe(p, 0, s2);
    lemma_bit_probe(o, 0, s2);
    lemma_bit_probe(bd.bishop_mask, 0, s2);
    lemma_bit_probe(bd.king_mask, 0, s2);
    lemma_bit_probe(bd.knight_mask, 0, s2);
    lemma_bit_probe(bd.rook_mask, 0, s2);
    lemma_bit_probe(bd.pawn_mask, 0, s2);
    lemma_bit_probe(o, !p, s2);
}

/// One bit of a word after moving the origin bit up to the destination.
pub proof fn lemma_move_word_up_bits(x: u64, f: u64, d: u64, s: u64)
    by (bit_vector)
    requires
        f < d,
        d < 63,
        s < 63,
    ensures
        s == d ==> ((spec_move_word_up(x, f, d) >> s) & 1) == ((x >> f) & 1),
        s == f ==> ((spec_move_word_up(x, f, d) >> s) & 1) == 0,
        (s != d && s != f) ==> ((spec_move_word_up(x, f, d) >> s) & 1) == ((x >> s) & 1),
{
}

pub proof fn lemma_move_word_down_bits(x: u64, f: u64, d: u64, s: u64)
    by (bit_vector)
    requires
        d < f,
        f < 63,
        s < 63,
    ensures
        s == d ==> ((spec_move_word_down(x, f, d) >> s) & 1) == ((x >> f) & 1),
        s == f ==> ((spec_move_word_down(x, f, d) >> s) & 1) == 0,
        (s != d && s != f) ==> ((spec_move_word_down(x, f, d) >> s) & 1) == ((x >> s) & 1),
{
}

/// Law: a relocation carries the origin's piece onto the destination,
/// empties the origin, and leaves every other square exactly as it was.
pub proof fn lemma_move_squares(bd: BitBoard, mov: BitBoardMove, r: u8, c: u8)
    requires
        bd.wf(),
        mov.from_pos < 63,
        mov.dest_pos < 63,
        mov.from_pos != mov.dest_pos,
        r < 9,
        c < 7,
    ensures
        ({
            let b2 = spec_do_move(bd, mov);
            if 7 * r + c == mov.dest_pos {
                spec_piece_at(b2, r, c) == spec_piece_at(
                    bd,
                    (mov.from_pos / 7) as u8,
                    (mov.from_pos % 7) as u8,
                )
            } else if 7 * r + c == mov.from_pos {
                spec_piece_at(b2, r, c) is None
            } else {
                spec_piece_at(b2, r, c) == spec_piece_at(bd, r, c)
            }
        }),
{
    let s = (7 * r + c) as u64;
    let f = mov.from_pos as u64;
    let d = mov.dest_pos as u64;
    let b2 = spec_do_move(bd, mov);
    lemma_row_col(mov.from_pos);
    if f < d {
        lemma_move_word_up_bits(bd.piece_mask, f, d, s);
        lemma_move_word_up_bits(bd.player_one_mask, f, d, s);
        lemma_move_word_up_bits(bd.bishop_mask, f, d, s);
        lemma_move_word_up_bits(bd.king_mask, f, d, s);
        lemma_move_word_up_bits(bd.knight_mask, f, d, s);
        lemma_move_word_up_bits(bd.rook_mask, f, d, s);
        lemma_move_word_up_bits(bd.pawn_mask, f, d, s);
    } else {
        lemma_move_word_down_bits(bd.piece_mask, f, d, s);
        lemma_move_word_down_bits(bd.player_one_mask, f, d, s);
        lemma_move_word_down_bits(bd.bishop_mask, f, d, s);
        lemma_move_word_down_bits(bd.king_mask, f, d, s);
        lemma_move_word_down_bits(bd.knight_mask, f, d, s);
        lemma_move_word_down_bits(bd.rook_mask, f, d, s);
        lemma_move_word_down_bits(bd.pawn_mask, f, d, s);
    }
    lemma_bit_probe(b2.piece_mask, 0, s);
    lemma_bit_probe(b2.player_one_mask, 0, s);
    lemma_bit_probe(b2.bishop_mask, 0, s);
    lemma_bit_probe(b2.king_mask, 0, s);
    lemma_bit_probe(b2.knight_mask, 0, s);
    lemma_bit_probe(b2.rook_mask, 0, s);
    lemma_bit_probe(b2.pawn_mask, 0, s);
    lemma_bit_probe(bd.piece_mask, 0, s);
    lemma_bit_probe(bd.player_one_mask, 0, s);
    lemma_bit_probe(bd.bishop_mask, 0, s);
    lemma_bit_probe(bd.king_mask, 0, s);
    lemma_bit_probe(bd.knight_mask, 0, s);
    lemma_bit_probe(bd.rook_mask, 0, s);
    lemma_bit_probe(bd.pawn_mask, 0, s);
    lemma_bit_probe(bd.piece_mask, 0, f);
    lemma_bit_probe(bd.player_one_mask, 0, f);
    lemma_bit_probe(bd.bishop_mask, 0, f);
    lemma_bit_probe(bd.king_mask, 0, f);
    lemma_bit_probe(bd.knight_mask, 0, f);
    lemma_bit_probe(bd.rook_mask, 0, f);
    lemma_bit_probe(bd.pawn_mask, 0, f);
}

/// Reflection preserves the representation invariant.
pub proof fn lemma_invert_wf(bd: BitBoard)
    requires
        bd.wf(),
    ensures
        spec_invert(bd).wf(),
{
    let p = bd.piece_mask;
    let o = bd.player_one_mask;
    lemma_flip_bound(p);
    lemma_owner_complement(p, o);
    lemma_flip_subset(p ^ o, p);
    lemma_flip_or(bd.bishop_mask, bd.king_mask);
    lemma_flip_or(bd.bishop_mask | bd.king_mask, bd.knight_mask);
    lemma_flip_or(bd.bishop_mask | bd.king_mask | bd.knight_mask, bd.rook_mask);
    lemma_flip_or(
        bd.bishop_mask | bd.king_mask | bd.knight_mask | bd.rook_mask,
        bd.pawn_mask,
    );
    lemma_flip_disjoint(bd.bishop_mask, bd.king_mask);
    lemma_flip_disjoint(bd.bishop_mask, bd.knight_mask);
    lemma_flip_disjoint(bd.bishop_mask, bd.rook_mask);
    lemma_flip_disjoint(bd.bishop_mask, bd.pawn_mask);
    lemma_flip_disjoint(bd.king_mask, bd.knight_mask);
    lemma_flip_disjoint(bd.king_mask, bd.rook_mask);
    lemma_flip_disjoint(bd.king_mask, bd.pawn_mask);
    lemma_flip_disjoint(bd.knight_mask, bd.rook_mask);
    lemma_flip_disjoint(bd.knight_mask, bd.pawn_mask);
    lemma_flip_disjoint(bd.rook_mask, bd.pawn_mask);
}

/// Reflecting a well-formed position twice restores it bit-exactly.
pub proof fn lemma_invert_involution(bd: BitBoard)
    requires
        bd.wf(),
    ensures
        spec_invert(spec_invert(bd)) == bd,
{
    let p = bd.piece_mask;
    let o = bd.player_one_mask;
    lemma_union_parts_bounded(
        bd.bishop_mask,
        bd.king_mask,
        bd.knight_mask,
        bd.rook_mask,
        bd.pawn_mask,
        p,
    );
    lemma_flip_involution(p);
    lemma_flip_involution(bd.bishop_mask);
    lemma_flip_involution(bd.king_mask);
    lemma_flip_involution(bd.knight_mask);
    lemma_flip_involution(bd.rook_mask);
    lemma_flip_involution(bd.pawn_mask);
    // The owner word: flip(flip(p) ^ flip(p ^ o)) == o.
    lemma_flip_xor(p, p ^ o);
    lemma_owner_complement(p, o);
    lemma_subset_bounded(o, p);
    lemma_flip_involution(o);
}

} // verus!
