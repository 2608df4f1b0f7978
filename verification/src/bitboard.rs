use vstd::prelude::*;
use vstd::string::StringExecFns;

use crate::board::{spec_other, Mov, PieceKind, Player};

verus! {

/// Bit 63 of a board word is unused: squares live in bits 0..=62,
/// addressed as `row * 7 + col` with rows 0..=8 and columns 0..=6.
pub const HIGH_BIT: u64 = 0x8000_0000_0000_0000;

pub const FLIP_K1: u64 = 0b0000000011111110000000111111100000000000000111111100000001111111;

pub const FLIP_K2: u64 = 0b0000000000000001111111111111100000000000000000000011111111111111;

pub const FLIP_K3: u64 = 0b0000000000000000000000000000011111110000000000000000000000000000;

pub const BOARD_BITS: u64 = 0x7fff_ffff_ffff_ffff;

/// A word holds only square bits, never the unused bit 63.
pub open spec fn mask_ok(m: u64) -> bool {
    m & HIGH_BIT == 0
}

/// A move between two packed square indices. `from_pos == dest_pos`
/// denotes an explosion rather than a relocation.
#[derive(Clone, Copy, Eq, Debug, PartialEq, Structural)]
pub struct BitBoardMove {
    pub from_pos: u8,
    pub dest_pos: u8,
}

/// The vertical mirror of a move: rows are reflected, columns kept.
pub open spec fn spec_move_invert(m: BitBoardMove) -> BitBoardMove {
    BitBoardMove {
        from_pos: (7 * (8 - m.from_pos as int / 7) + m.from_pos as int % 7) as u8,
        dest_pos: (7 * (8 - m.dest_pos as int / 7) + m.dest_pos as int % 7) as u8,
    }
}

impl BitBoardMove {
    pub fn from_from_dest(from_pos: (u8, u8), dest_pos: (u8, u8)) -> (r: Option<BitBoardMove>)
        requires
            from_pos.0 < 9,
            from_pos.1 < 7,
            dest_pos.0 < 9,
            dest_pos.1 < 7,
        ensures
            r == Some(
                BitBoardMove {
                    from_pos: (7 * from_pos.0 + from_pos.1) as u8,
                    dest_pos: (7 * dest_pos.0 + dest_pos.1) as u8,
                },
            ),
    {
        Some(
            BitBoardMove {
                from_pos: 7 * from_pos.0 + from_pos.1,
                dest_pos: 7 * dest_pos.0 + dest_pos.1,
            },
        )
    }

}

impl Mov for BitBoardMove {
    open spec fn mov_ok(&self) -> bool {
        self.from_pos < 63 && self.dest_pos < 63
    }

    open spec fn from_dest_model(&self) -> ((u8, u8), (u8, u8)) {
        ((self.from_pos / 7, self.from_pos % 7), (self.dest_pos / 7, self.dest_pos % 7))
    }

    open spec fn inverted(&self) -> BitBoardMove {
        spec_move_invert(*self)
    }

    fn invert(&self) -> (r: BitBoardMove) {
        proof {
            crate::bitlemmas::lemma_row_col(self.from_pos);
            crate::bitlemmas::lemma_row_col(self.dest_pos);
        }
        let from_row = self.from_pos / 7;
        let from_col = self.from_pos % 7;
        let dest_row = self.dest_pos / 7;
        let dest_col = self.dest_pos % 7;
        BitBoardMove {
            from_pos: 7 * (8 - from_row) + from_col,
            dest_pos: 7 * (8 - dest_row) + dest_col,
        }
    }

    fn get_from_dest(&self) -> (r: ((u8, u8), (u8, u8))) {
        (
            (self.from_pos / 7, self.from_pos % 7),
            (self.dest_pos / 7, self.dest_pos % 7),
        )
    }
}

/// The file letter of a column index: columns 0..=6 are files A..=G.
pub open spec fn spec_file_char(c: int) -> char {
    if c == 0 {
        'A'
    } else if c == 1 {
        'B'
    } else if c == 2 {
        'C'
    } else if c == 3 {
        'D'
    } else if c == 4 {
        'E'
    } else if c == 5 {
        'F'
    } else {
        'G'
    }
}

/// The rank digit of a row index: rows 0..=8 are ranks 1..=9.
pub open spec fn spec_rank_char(r: int) -> char {
    if r == 0 {
        '1'
    } else if r == 1 {
        '2'
    } else if r == 2 {
        '3'
    } else if r == 3 {
        '4'
    } else if r == 4 {
        '5'
    } else if r == 5 {
        '6'
    } else if r == 6 {
        '7'
    } else if r == 7 {
        '8'
    } else {
        '9'
    }
}

/// The four-character token of a move: file and rank of the origin, then of
/// the destination. Identical square tokens denote an explosion.
pub open spec fn spec_notation(m: BitBoardMove) -> Seq<char> {
    seq![
        spec_file_char(m.from_pos as int % 7),
        spec_rank_char(m.from_pos as int / 7),
        spec_file_char(m.dest_pos as int % 7),
        spec_rank_char(m.dest_pos as int / 7),
    ]
}

pub(crate) fn file_str(c: u8) -> (r: &'static str)
    requires
        c < 7,
    ensures
        r@ == seq![spec_file_char(c as int)],
{
    proof {
        reveal_strlit("A");
        reveal_strlit("B");
        reveal_strlit("C");
        reveal_strlit("D");
        reveal_strlit("E");
        reveal_strlit("F");
        reveal_strlit("G");
    }
    let r: &'static str = match c {
        0 => "A",
        1 => "B",
        2 => "C",
        3 => "D",
        4 => "E",
        5 => "F",
        _ => "G",
    };
    proof {
        assert(r@ =~= seq![spec_file_char(c as int)]);
    }
    r
}

pub(crate) fn rank_str(rw: u8) -> (r: &'static str)
    requires
        rw < 9,
    ensures
        r@ == seq![spec_rank_char(rw as int)],
{
    proof {
        reveal_strlit("1");
        reveal_strlit("2");
        reveal_strlit("3");
        reveal_strlit("4");
        reveal_strlit("5");
        reveal_strlit("6");
        reveal_strlit("7");
        reveal_strlit("8");
        reveal_strlit("9");
    }
    let r: &'static str = match rw {
        0 => "1",
        1 => "2",
        2 => "3",
        3 => "4",
        4 => "5",
        5 => "6",
        6 => "7",
        7 => "8",
        _ => "9",
    };
    proof {
        assert(r@ =~= seq![spec_rank_char(rw as int)]);
    }
    r
}

impl BitBoardMove {
    /// The move's textual token, e.g. "B1C3".
    pub fn notation(&self) -> (r: String)
        requires
            self.from_pos < 63,
            self.dest_pos < 63,
        ensures
            r@ == spec_notation(*self),
    {
        proof {
            crate::bitlemmas::lemma_row_col(self.from_pos);
            crate::bitlemmas::lemma_row_col(self.dest_pos);
        }
        let mut s = String::new();
        s.append(file_str(self.from_pos % 7));
        s.append(rank_str(self.from_pos / 7));
        s.append(file_str(self.dest_pos % 7));
        s.append(rank_str(self.dest_pos / 7));
        proof {
            assert(s@ =~= spec_notation(*self));
        }
        s
    }
}

/// The packed position: one bit per square for occupancy, ownership and
/// each piece kind, plus the side to move.
#[derive(Clone, Copy, Eq, PartialEq, Structural, Hash)]
pub struct BitBoard {
    pub current_player: Player,
    pub piece_mask: u64,
    pub player_one_mask: u64,
    pub bishop_mask: u64,
    pub king_mask: u64,
    pub knight_mask: u64,
    pub rook_mask: u64,
    pub pawn_mask: u64,
}

impl BitBoard {
    /// The representation invariant: occupancy is the union of the five kind
    /// masks, the owner mask is a subset of occupancy, kind masks are
    /// pairwise disjoint, and no word uses the spare bit 63.
    pub open spec fn wf(self) -> bool {
        &&& self.piece_mask & HIGH_BIT == 0
        &&& self.player_one_mask & !self.piece_mask == 0
        &&& (self.bishop_mask | self.king_mask | self.knight_mask | self.rook_mask
            | self.pawn_mask) == self.piece_mask
        &&& self.bishop_mask & self.king_mask == 0
        &&& self.bishop_mask & self.knight_mask == 0
        &&& self.bishop_mask & self.rook_mask == 0
        &&& self.bishop_mask & self.pawn_mask == 0
        &&& self.king_mask & self.knight_mask == 0
        &&& self.king_mask & self.rook_mask == 0
        &&& self.king_mask & self.pawn_mask == 0
        &&& self.knight_mask & self.rook_mask == 0
        &&& self.knight_mask & self.pawn_mask == 0
        &&& self.rook_mask & self.pawn_mask == 0
    }
}

/// One round-trip of the vertical flip permutation on a 63-bit board word.
pub open spec fn spec_flip(x: u64) -> u64 {
    let a = (((x >> 7) & FLIP_K1) | ((x & FLIP_K1) << 7) | (x & FLIP_K3)) & BOARD_BITS;
    let b = (((a >> 14) & FLIP_K2) | ((a & FLIP_K2) << 14) | (a & FLIP_K3)) & BOARD_BITS;
    ((b >> 35) | (b << 35) | (b & FLIP_K3)) & BOARD_BITS
}

/// Mirrors rows within a board word.
pub fn flip_vertical(x: u64) -> (r: u64)
    ensures
        r == spec_flip(x),
{
    let a = (((x >> 7) & FLIP_K1) | ((x & FLIP_K1) << 7) | (x & FLIP_K3)) & BOARD_BITS;
    let b = (((a >> 14) & FLIP_K2) | ((a & FLIP_K2) << 14) | (a & FLIP_K3)) & BOARD_BITS;
    ((b >> 35) | (b << 35) | (b & FLIP_K3)) & BOARD_BITS
}

/// The whole-position reflection: rows mirrored, ownership complemented
/// (within occupancy), and the side to move swapped.
pub open spec fn spec_invert(b: BitBoard) -> BitBoard {
    BitBoard {
        current_player: spec_other(b.current_player),
        piece_mask: spec_flip(b.piece_mask),
        player_one_mask: spec_flip(b.piece_mask ^ b.player_one_mask),
        bishop_mask: spec_flip(b.bishop_mask),
        king_mask: spec_flip(b.king_mask),
        knight_mask: spec_flip(b.knight_mask),
        rook_mask: spec_flip(b.rook_mask),
        pawn_mask: spec_flip(b.pawn_mask),
    }
}

pub const INIT_PIECE: u64 = 0b0011111000010000001000101010100000001010101000100000010000111110;

pub const INIT_ONE: u64 = 0b0000000000000000000000000000000000001010101000100000010000111110;

pub const INIT_BISHOP: u64 = 0b0000000000010000001000000000000000000000000000100000010000000000;

pub const INIT_KING: u64 = 0b0000100000000000000000000000000000000000000000000000000000001000;

pub const INIT_KNIGHT: u64 = 0b0010001000000000000000000000000000000000000000000000000000100010;

pub const INIT_ROOK: u64 = 0b0001010000000000000000000000000000000000000000000000000000010100;

pub const INIT_PAWN: u64 = 0b0000000000000000000000101010100000001010101000000000000000000000;

impl BitBoard {
    /// The fixed initial layout, player one to move.
    pub fn init() -> (r: Self)
        ensures
            r == spec_init(),
            r.wf(),
    {
        proof {
            crate::bitlemmas::lemma_init_wf();
        }
        BitBoard {
            current_player: Player::PlayerOne,
            piece_mask: INIT_PIECE,
            player_one_mask: INIT_ONE,
            bishop_mask: INIT_BISHOP,
            king_mask: INIT_KING,
            knight_mask: INIT_KNIGHT,
            rook_mask: INIT_ROOK,
            pawn_mask: INIT_PAWN,
        }
    }

    pub fn get_player(&self) -> (r: Player)
        ensures
            r == self.current_player,
    {
        self.current_player
    }

    /// The reflected position, as a value.
    pub fn invert(&self) -> (r: BitBoard)
        ensures
            r == spec_invert(*self),
            self.wf() ==> r.wf(),
    {
        proof {
            if self.wf() {
                crate::bitlemmas::lemma_invert_wf(*self);
            }
        }
        BitBoard {
            current_player: self.current_player.other(),
            piece_mask: flip_vertical(self.piece_mask),
            player_one_mask: flip_vertical(self.piece_mask ^ self.player_one_mask),
            bishop_mask: flip_vertical(self.bishop_mask),
            king_mask: flip_vertical(self.king_mask),
            knight_mask: flip_vertical(self.knight_mask),
            rook_mask: flip_vertical(self.rook_mask),
            pawn_mask: flip_vertical(self.pawn_mask),
        }
    }
}

pub const NORT_MASK: u64 = 0x00ff_ffff_ffff_ffff;

pub const EAST_MASK: u64 = 0b0011111101111110111111011111101111110111111011111101111110111111;

pub const WEST_MASK: u64 = 0b0111111011111101111110111111011111101111110111111011111101111110;

/// One step toward higher rows: the forward direction for player one.
pub open spec fn spec_nort(x: u64) -> u64 {
    (x & NORT_MASK) << 7
}

/// One step toward higher columns, masking off the wrap-around file.
pub open spec fn spec_east(x: u64) -> u64 {
    (x & EAST_MASK) << 1
}

/// One step toward lower columns, masking off the wrap-around file.
pub open spec fn spec_west(x: u64) -> u64 {
    (x & WEST_MASK) >> 1
}

fn nort(x: u64) -> (r: u64)
    ensures
        r == spec_nort(x),
{
    (x & NORT_MASK) << 7
}

fn east(x: u64) -> (r: u64)
    ensures
        r == spec_east(x),
{
    (x & EAST_MASK) << 1
}

fn west(x: u64) -> (r: u64)
    ensures
        r == spec_west(x),
{
    (x & WEST_MASK) >> 1
}

/// One OR-shift round of the ray projection.
pub open spec fn proj_step_fwd(piece: u64, pos: u64, mask: u64, delta: u64, acc: u64) -> u64 {
    acc | ((((acc & !piece) | pos) & mask) << delta)
}

pub open spec fn proj_step_bwd(piece: u64, pos: u64, mask: u64, delta: u64, acc: u64) -> u64 {
    acc | ((((acc & !piece) | pos) & mask) >> delta)
}

/// `n` OR-shift rounds, growing a ray from `pos` square by square while the
/// squares passed are unoccupied.
pub open spec fn proj_fwd_iter(piece: u64, pos: u64, mask: u64, delta: u64, n: nat) -> u64
    decreases n,
{
    if n == 0 {
        0u64
    } else {
        proj_step_fwd(piece, pos, mask, delta, proj_fwd_iter(piece, pos, mask, delta, (n - 1) as nat))
    }
}

pub open spec fn proj_bwd_iter(piece: u64, pos: u64, mask: u64, delta: u64, n: nat) -> u64
    decreases n,
{
    if n == 0 {
        0u64
    } else {
        proj_step_bwd(piece, pos, mask, delta, proj_bwd_iter(piece, pos, mask, delta, (n - 1) as nat))
    }
}

/// The forward ray from `pos`: eight projection rounds (the board's longest
/// dimension), with squares held by the mover's own side removed.
pub open spec fn spec_project_fwd(piece: u64, one: u64, pos: u64, mask: u64, delta: u64) -> u64 {
    proj_fwd_iter(piece, pos, mask, delta, 8) & !(piece & one)
}

pub open spec fn spec_project_bwd(piece: u64, one: u64, pos: u64, mask: u64, delta: u64) -> u64 {
    proj_bwd_iter(piece, pos, mask, delta, 8) & !(piece & one)
}

fn project_fwd(state: &BitBoard, pos: u64, mask: u64, delta: u64) -> (r: u64)
    requires
        delta < 64,
    ensures
        r == spec_project_fwd(state.piece_mask, state.player_one_mask, pos, mask, delta),
{
    let mut positions: u64 = 0;
    let mut i: usize = 0;
    while i < 8
        invariant
            i <= 8,
            delta < 64,
            positions == proj_fwd_iter(state.piece_mask, pos, mask, delta, i as nat),
        decreases 8 - i,
    {
        positions = positions | ((((positions & !state.piece_mask) | pos) & mask) << delta);
        i = i + 1;
    }
    positions & !(state.piece_mask & state.player_one_mask)
}

fn project_bwd(state: &BitBoard, pos: u64, mask: u64, delta: u64) -> (r: u64)
    requires
        delta < 64,
    ensures
        r == spec_project_bwd(state.piece_mask, state.player_one_mask, pos, mask, delta),
{
    let mut positions: u64 = 0;
    let mut i: usize = 0;
    while i < 8
        invariant
            i <= 8,
            delta < 64,
            positions == proj_bwd_iter(state.piece_mask, pos, mask, delta, i as nat),
        decreases 8 - i,
    {
        positions = positions | ((((positions & !state.piece_mask) | pos) & mask) >> delta);
        i = i + 1;
    }
    positions & !(state.piece_mask & state.player_one_mask)
}

/// Bishop destinations from the single-bit origin `pos`, in the
/// player-one-forward frame: forward diagonals move or capture, backward
/// diagonals capture only.
pub open spec fn spec_bishop_moves(piece: u64, one: u64, pos: u64) -> u64 {
    let atk = (spec_project_bwd(piece, one, pos, 0x7efdfbf7efdfbf00u64, 8) | spec_project_bwd(
        piece,
        one,
        pos,
        0x3f7efdfbf7efdf80u64,
        6,
    )) & (piece & !one);
    atk | spec_project_fwd(piece, one, pos, 0x007efdfbf7efdfbfu64, 8) | spec_project_fwd(
        piece,
        one,
        pos,
        0x00fdfbf7efdfbf7eu64,
        6,
    ) | pos
}

/// King destinations: one step forward or forward-diagonal, never onto an
/// own piece.
pub open spec fn spec_king_moves(piece: u64, one: u64, pos: u64) -> u64 {
    let n = spec_nort(pos);
    (n & !one) | ((spec_west(n) | spec_east(n)) & !(piece & one)) | pos
}

/// Pawn destinations: forward onto an empty square, diagonal-forward onto an
/// enemy piece only.
pub open spec fn spec_pawn_moves(piece: u64, one: u64, pos: u64) -> u64 {
    let n = spec_nort(pos);
    pos | (n & !piece) | ((spec_west(n) | spec_east(n)) & (piece & !one))
}

/// Rook destinations: forward and sideways rays move or capture, the
/// backward ray captures only.
pub open spec fn spec_rook_moves(piece: u64, one: u64, pos: u64) -> u64 {
    let atk = spec_project_bwd(piece, one, pos, 0x7fffffffffffff80u64, 7) & (piece & !one);
    atk | spec_project_fwd(piece, one, pos, 0x00ffffffffffffffu64, 7) | spec_project_fwd(
        piece,
        one,
        pos,
        0x3f7efdfbf7efdfbfu64,
        1,
    ) | spec_project_bwd(piece, one, pos, 0x7efdfbf7efdfbf7eu64, 1) | pos
}

/// Knight destinations: forward L-offsets move or capture, backward
/// L-offsets capture only.
pub open spec fn spec_knight_moves(piece: u64, one: u64, pos: u64) -> u64 {
    let bwd = (((pos & 0x7cf9f3e7cf9f3e00) >> 9) | ((pos & 0x1f3e7cf9f3e7cf80) >> 5) | ((pos
        & 0x7efdfbf7efdf8000) >> 15) | ((pos & 0x3f7efdfbf7efc000) >> 13)) & (piece & !one);
    let all = (bwd | ((pos & 0x003e7cf9f3e7cf9f) << 9) | ((pos & 0x00f9f3e7cf9f3e7c) << 5) | ((pos
        & 0x0000fdfbf7efdfbf) << 15) | ((pos & 0x0001fbf7efdfbf7e) << 13)) & !(piece & one);
    all | pos
}

impl BitBoard {
    fn get_bishop_moves(&self, pos: u64) -> (r: u64)
        requires
            mask_ok(pos),
        ensures
            r == spec_bishop_moves(self.piece_mask, self.player_one_mask, pos),
            mask_ok(r),
    {
        let mut positions: u64 = 0;
        proof {
            crate::bitlemmas::lemma_or_zero(
                spec_project_bwd(self.piece_mask, self.player_one_mask, pos, 0x7efdfbf7efdfbf00u64, 8),
            );
        }
        positions = positions | project_bwd(self, pos, 0x7efdfbf7efdfbf00u64, 8);
        positions = positions | project_bwd(self, pos, 0x3f7efdfbf7efdf80u64, 6);
        positions = positions & (self.piece_mask & !self.player_one_mask);
        positions = positions | project_fwd(self, pos, 0x007efdfbf7efdfbfu64, 8);
        positions = positions | project_fwd(self, pos, 0x00fdfbf7efdfbf7eu64, 6);
        proof {
            crate::bitlemmas::lemma_bishop_bound(self.piece_mask, self.player_one_mask, pos);
        }
        positions | pos
    }

    fn get_king_moves(&self, pos: u64) -> (r: u64)
        requires
            mask_ok(pos),
        ensures
            r == spec_king_moves(self.piece_mask, self.player_one_mask, pos),
            mask_ok(r),
    {
        let mut ret: u64 = 0;
        let n = nort(pos);
        proof {
            crate::bitlemmas::lemma_or_zero(spec_nort(pos) & !self.player_one_mask);
        }
        ret = ret | (n & !self.player_one_mask);
        ret = ret | ((west(n) | east(n)) & !(self.piece_mask & self.player_one_mask));
        proof {
            crate::bitlemmas::lemma_king_bound(self.piece_mask, self.player_one_mask, pos);
        }
        ret | pos
    }

    fn get_pawn_moves(&self, pos: u64) -> (r: u64)
        requires
            mask_ok(pos),
        ensures
            r == spec_pawn_moves(self.piece_mask, self.player_one_mask, pos),
            mask_ok(r),
    {
        let mut ret: u64 = pos;
        let n = nort(pos);
        ret = ret | (n & !self.piece_mask);
        ret = ret | ((west(n) | east(n)) & (self.piece_mask & !self.player_one_mask));
        proof {
            crate::bitlemmas::lemma_pawn_bound(self.piece_mask, self.player_one_mask, pos);
        }
        ret
    }

    fn get_rook_moves(&self, pos: u64) -> (r: u64)
        requires
            mask_ok(pos),
        ensures
            r == spec_rook_moves(self.piece_mask, self.player_one_mask, pos),
            mask_ok(r),
    {
        let mut positions: u64 = 0;
        proof {
            crate::bitlemmas::lemma_or_zero(
                spec_project_bwd(self.piece_mask, self.player_one_mask, pos, 0x7fffffffffffff80u64, 7),
            );
        }
        positions = positions | project_bwd(self, pos, 0x7fffffffffffff80u64, 7);
        positions = positions & (self.piece_mask & !self.player_one_mask);
        positions = positions | project_fwd(self, pos, 0x00ffffffffffffffu64, 7);
        positions = positions | project_fwd(self, pos, 0x3f7efdfbf7efdfbfu64, 1);
        positions = positions | project_bwd(self, pos, 0x7efdfbf7efdfbf7eu64, 1);
        proof {
            crate::bitlemmas::lemma_rook_bound(self.piece_mask, self.player_one_mask, pos);
        }
        positions | pos
    }

    fn get_knight_moves(&self, pos: u64) -> (r: u64)
        requires
            mask_ok(pos),
        ensures
            r == spec_knight_moves(self.piece_mask, self.player_one_mask, pos),
            mask_ok(r),
    {
        let mut positions: u64 = 0;
        proof {
            crate::bitlemmas::lemma_or_zero((pos & 0x7cf9f3e7cf9f3e00) >> 9);
        }
        positions = positions | ((pos & 0x7cf9f3e7cf9f3e00) >> 9);
        positions = positions | ((pos & 0x1f3e7cf9f3e7cf80) >> 5);
        positions = positions | ((pos & 0x7efdfbf7efdf8000) >> 15);
        positions = positions | ((pos & 0x3f7efdfbf7efc000) >> 13);
        positions = positions & (self.piece_mask & !self.player_one_mask);
        positions = positions | ((pos & 0x003e7cf9f3e7cf9f) << 9);
        positions = positions | ((pos & 0x00f9f3e7cf9f3e7c) << 5);
        positions = positions | ((pos & 0x0000fdfbf7efdfbf) << 15);
        positions = positions | ((pos & 0x0001fbf7efdfbf7e) << 13);
        positions = positions & !(self.piece_mask & self.player_one_mask);
        proof {
            crate::bitlemmas::lemma_knight_bound(self.piece_mask, self.player_one_mask, pos);
        }
        positions | pos
    }
}

/// The destination mask for the piece standing on square `f`, dispatched by
/// kind in the fixed lookup order.
pub open spec fn spec_dest_mask(b: BitBoard, f: u64) -> u64 {
    let m = 1u64 << f;
    if b.bishop_mask & m != 0 {
        spec_bishop_moves(b.piece_mask, b.player_one_mask, m)
    } else if b.king_mask & m != 0 {
        spec_king_moves(b.piece_mask, b.player_one_mask, m)
    } else if b.knight_mask & m != 0 {
        spec_knight_moves(b.piece_mask, b.player_one_mask, m)
    } else if b.pawn_mask & m != 0 {
        spec_pawn_moves(b.piece_mask, b.player_one_mask, m)
    } else if b.rook_mask & m != 0 {
        spec_rook_moves(b.piece_mask, b.player_one_mask, m)
    } else {
        0u64
    }
}

/// The moves from origin `from` whose destination bits at index `d` and
/// above are set in `mask`, destinations in ascending square order.
pub open spec fn spec_dests(from: u8, mask: u64, d: int) -> Seq<BitBoardMove>
    decreases 64 - d,
{
    if d < 0 || d >= 64 {
        Seq::empty()
    } else {
        let rest = spec_dests(from, mask, d + 1);
        if (mask >> (d as u64)) & 1 == 1 {
            seq![BitBoardMove { from_pos: from, dest_pos: d as u8 }] + rest
        } else {
            rest
        }
    }
}

/// Player one's moves whose origin square is `f` or above, origins in
/// ascending square order.
pub open spec fn spec_moves_from(b: BitBoard, f: int) -> Seq<BitBoardMove>
    decreases 64 - f,
{
    if f < 0 || f >= 64 {
        Seq::empty()
    } else {
        let rest = spec_moves_from(b, f + 1);
        if ((b.piece_mask & b.player_one_mask) >> (f as u64)) & 1 == 1 {
            spec_dests(f as u8, spec_dest_mask(b, f as u64), 0) + rest
        } else {
            rest
        }
    }
}

/// All of player one's moves, in scan order.
pub open spec fn spec_moves_one(b: BitBoard) -> Seq<BitBoardMove> {
    spec_moves_from(b, 0)
}

/// The legal moves of the side to move: player one's are generated directly;
/// player two's are player one's moves of the reflected position, reflected
/// back.
pub open spec fn spec_moves(b: BitBoard) -> Seq<BitBoardMove> {
    if b.current_player == Player::PlayerOne {
        spec_moves_one(b)
    } else {
        spec_moves_one(spec_invert(b)).map_values(|m: BitBoardMove| spec_move_invert(m))
    }
}

impl BitBoard {
    /// Appends the moves from origin `f` with destination mask `dm`.
    fn push_dests(ret: &mut Vec<BitBoardMove>, f: u64, dm: u64)
        requires
            f < 63,
            mask_ok(dm),
        ensures
            final(ret)@ == old(ret)@ + spec_dests(f as u8, dm, 0),
            forall|i: int|
                old(ret)@.len() <= i < final(ret)@.len() ==> (#[trigger] final(ret)@[i]).from_pos
                    < 63 && final(ret)@[i].dest_pos < 63,
    {
        let mut d: u64 = 0;
        while d < 64
            invariant
                d <= 64,
                f < 63,
                mask_ok(dm),
                old(ret)@ + spec_dests(f as u8, dm, 0) == ret@ + spec_dests(f as u8, dm, d as int),
                forall|i: int|
                    old(ret)@.len() <= i < ret@.len() ==> (#[trigger] ret@[i]).from_pos < 63
                        && ret@[i].dest_pos < 63,
            decreases 64 - d,
        {
            if (dm >> d) & 1 == 1 {
                proof {
                    crate::bitlemmas::lemma_bit_below_63(dm, d);
                    assert(spec_dests(f as u8, dm, d as int) == seq![
                        BitBoardMove { from_pos: f as u8, dest_pos: d as u8 },
                    ] + spec_dests(f as u8, dm, d as int + 1));
                    assert(ret@ + spec_dests(f as u8, dm, d as int) =~= (ret@ + seq![
                        BitBoardMove { from_pos: f as u8, dest_pos: d as u8 },
                    ]) + spec_dests(f as u8, dm, d as int + 1));
                }
                ret.push(BitBoardMove { from_pos: f as u8, dest_pos: d as u8 });
            }
            d = d + 1;
        }
    }

    /// Enumerates the legal moves of the side to move, grouped by ascending
    /// origin square and, within an origin, by ascending destination square.
    pub fn get_moves(&self) -> (r: Vec<BitBoardMove>)
        requires
            self.wf(),
        ensures
            r@ == spec_moves(*self),
            forall|i: int|
                0 <= i < r@.len() ==> (#[trigger] r@[i]).from_pos < 63 && r@[i].dest_pos < 63,
        decreases (if self.current_player == Player::PlayerOne {
            0int
        } else {
            1int
        }),
    {
        if self.current_player != Player::PlayerOne {
            let inv = self.invert();
            let ms = inv.get_moves();
            let mut ret: Vec<BitBoardMove> = Vec::new();
            let mut i: usize = 0;
            while i < ms.len()
                invariant
                    i <= ms@.len(),
                    ret@ =~= ms@.subrange(0, i as int).map_values(
                        |m: BitBoardMove| spec_move_invert(m),
                    ),
                    forall|j: int|
                        0 <= j < ms@.len() ==> (#[trigger] ms@[j]).from_pos < 63
                            && ms@[j].dest_pos < 63,
                    forall|j: int|
                        0 <= j < ret@.len() ==> (#[trigger] ret@[j]).from_pos < 63
                            && ret@[j].dest_pos < 63,
                decreases ms@.len() - i,
            {
                let m = ms[i];
                proof {
                    crate::bitlemmas::lemma_row_col(m.from_pos);
                    crate::bitlemmas::lemma_row_col(m.dest_pos);
                    assert(ms@.subrange(0, i as int + 1).map_values(
                        |mm: BitBoardMove| spec_move_invert(mm),
                    ) =~= ms@.subrange(0, i as int).map_values(
                        |mm: BitBoardMove| spec_move_invert(mm),
                    ) + seq![spec_move_invert(ms@[i as int])]);
                }
                ret.push(m.invert());
                i = i + 1;
            }
            proof {
                assert(ms@.subrange(0, ms@.len() as int) =~= ms@);
                assert(ret@ =~= spec_moves(*self));
            }
            return ret;
        }
        let own = self.piece_mask & self.player_one_mask;
        let mut ret: Vec<BitBoardMove> = Vec::new();
        let mut f: u64 = 0;
        while f < 64
            invariant
                f <= 64,
                self.wf(),
                self.current_player == Player::PlayerOne,
                own == self.piece_mask & self.player_one_mask,
                ret@ + spec_moves_from(*self, f as int) == spec_moves_one(*self),
                forall|i: int|
                    0 <= i < ret@.len() ==> (#[trigger] ret@[i]).from_pos < 63
                        && ret@[i].dest_pos < 63,
            decreases 64 - f,
        {
            if (own >> f) & 1 == 1 {
                proof {
                    crate::bitlemmas::lemma_and_bound(self.piece_mask, self.player_one_mask);
                    crate::bitlemmas::lemma_bit_below_63(own, f);
                    crate::bitlemmas::lemma_kind_at_bit(
                        self.bishop_mask,
                        self.king_mask,
                        self.knight_mask,
                        self.rook_mask,
                        self.pawn_mask,
                        self.piece_mask,
                        self.player_one_mask,
                        f,
                    );
                }
                let from_mask = 1u64 << f;
                let dm: u64 = if self.bishop_mask & from_mask != 0 {
                    self.get_bishop_moves(from_mask)
                } else if self.king_mask & from_mask != 0 {
                    self.get_king_moves(from_mask)
                } else if self.knight_mask & from_mask != 0 {
                    self.get_knight_moves(from_mask)
                } else if self.pawn_mask & from_mask != 0 {
                    self.get_pawn_moves(from_mask)
                } else if self.rook_mask & from_mask != 0 {
                    self.get_rook_moves(from_mask)
                } else {
                    proof {
                        assert(false);
                    }
                    0u64
                };
                proof {
                    assert(dm == spec_dest_mask(*self, f));
                    assert(spec_moves_from(*self, f as int) == spec_dests(
                        f as u8,
                        spec_dest_mask(*self, f),
                        0,
                    ) + spec_moves_from(*self, f as int + 1));
                }
                let ghost pre = ret@;
                Self::push_dests(&mut ret, f, dm);
                proof {
                    assert(ret@ + spec_moves_from(*self, f as int + 1) =~= (pre + spec_dests(
                        f as u8,
                        dm,
                        0,
                    )) + spec_moves_from(*self, f as int + 1));
                    assert((pre + spec_dests(f as u8, dm, 0)) + spec_moves_from(
                        *self,
                        f as int + 1,
                    ) =~= pre + (spec_dests(f as u8, dm, 0) + spec_moves_from(*self, f as int + 1)));
                }
            }
            f = f + 1;
        }
        ret
    }
}

/// The owner and kind of the piece on (row, col), if any, read from the
/// masks in the fixed kind-lookup order.
pub open spec fn spec_piece_at(b: BitBoard, row: u8, col: u8) -> Option<(Player, PieceKind)> {
    let h = 1u64 << ((7 * row + col) as u64);
    if b.piece_mask & h == 0 {
        None
    } else {
        let pl = if b.player_one_mask & h != 0 {
            Player::PlayerOne
        } else {
            Player::PlayerTwo
        };
        let k = if b.bishop_mask & h != 0 {
            PieceKind::B
        } else if b.king_mask & h != 0 {
            PieceKind::K
        } else if b.knight_mask & h != 0 {
            PieceKind::N
        } else if b.pawn_mask & h != 0 {
            PieceKind::P
        } else {
            PieceKind::R
        };
        Some((pl, k))
    }
}

/// Player one still has a king on the board.
pub open spec fn spec_has_king_one(b: BitBoard) -> bool {
    b.piece_mask & b.player_one_mask & b.king_mask != 0
}

/// Player two still has a king on the board.
pub open spec fn spec_has_king_two(b: BitBoard) -> bool {
    b.piece_mask & !b.player_one_mask & b.king_mask != 0
}

/// The decided winner, if any: a side without a king loses at once, and a
/// side to move without a legal move loses (stalemate is a loss).
pub open spec fn spec_winner(b: BitBoard) -> Option<Player> {
    if b.king_mask == 0 {
        Some(b.current_player)
    } else if !spec_has_king_one(b) {
        Some(Player::PlayerTwo)
    } else if !spec_has_king_two(b) {
        Some(Player::PlayerOne)
    } else if spec_moves(b).len() == 0 {
        Some(spec_other(b.current_player))
    } else {
        None
    }
}

/// The origin square together with its up-to-eight existing neighbors.
pub open spec fn spec_explosion_mask(f: u64) -> u64 {
    let m0 = 1u64 << f;
    let m1 = m0 | ((m0 & 0x00ffffffffffffffu64) << 7);
    let m2 = m1 | ((m1 & 0x7fffffffffffff80u64) >> 7);
    let m3 = m2 | ((m2 & 0x3f7efdfbf7efdfbfu64) << 1);
    m3 | ((m3 & 0x7efdfbf7efdfbf7eu64) >> 1)
}

/// One board word after moving the bit at `f` up to `d` and clearing
/// whatever stood on `d`.
pub open spec fn spec_move_word_up(x: u64, f: u64, d: u64) -> u64 {
    ((x & (1u64 << f)) << ((d - f) as u64)) | (x & !(1u64 << f) & !(1u64 << d))
}

pub open spec fn spec_move_word_down(x: u64, f: u64, d: u64) -> u64 {
    ((x & (1u64 << f)) >> ((f - d) as u64)) | (x & !(1u64 << f) & !(1u64 << d))
}

/// The position after applying a move: an explosion clears the origin's
/// neighborhood in every mask; a relocation moves the origin bit of every
/// mask and clears the destination's previous occupant. The side to move
/// flips either way.
pub open spec fn spec_do_move(b: BitBoard, mov: BitBoardMove) -> BitBoard {
    let f = mov.from_pos as u64;
    let d = mov.dest_pos as u64;
    if f == d {
        let z = !spec_explosion_mask(f);
        BitBoard {
            current_player: spec_other(b.current_player),
            piece_mask: b.piece_mask & z,
            player_one_mask: b.player_one_mask & z,
            bishop_mask: b.bishop_mask & z,
            king_mask: b.king_mask & z,
            knight_mask: b.knight_mask & z,
            rook_mask: b.rook_mask & z,
            pawn_mask: b.pawn_mask & z,
        }
    } else if f < d {
        BitBoard {
            current_player: spec_other(b.current_player),
            piece_mask: spec_move_word_up(b.piece_mask, f, d),
            player_one_mask: spec_move_word_up(b.player_one_mask, f, d),
            bishop_mask: spec_move_word_up(b.bishop_mask, f, d),
            king_mask: spec_move_word_up(b.king_mask, f, d),
            knight_mask: spec_move_word_up(b.knight_mask, f, d),
            rook_mask: spec_move_word_up(b.rook_mask, f, d),
            pawn_mask: spec_move_word_up(b.pawn_mask, f, d),
        }
    } else {
        BitBoard {
            current_player: spec_other(b.current_player),
            piece_mask: spec_move_word_down(b.piece_mask, f, d),
            player_one_mask: spec_move_word_down(b.player_one_mask, f, d),
            bishop_mask: spec_move_word_down(b.bishop_mask, f, d),
            king_mask: spec_move_word_down(b.king_mask, f, d),
            knight_mask: spec_move_word_down(b.knight_mask, f, d),
            rook_mask: spec_move_word_down(b.rook_mask, f, d),
            pawn_mask: spec_move_word_down(b.pawn_mask, f, d),
        }
    }
}

fn do_move_up(board: &mut u64, from_mask: u64, dest_mask: u64, up_shift: u8)
    requires
        up_shift < 64,
    ensures
        *final(board) == ((*old(board) & from_mask) << (up_shift as u64)) | (*old(board)
            & !from_mask & !dest_mask),
{
    *board = ((*board & from_mask) << (up_shift as u64)) | (*board & !from_mask & !dest_mask);
}

fn do_move_down(board: &mut u64, from_mask: u64, dest_mask: u64, down_shift: u8)
    requires
        down_shift < 64,
    ensures
        *final(board) == ((*old(board) & from_mask) >> (down_shift as u64)) | (*old(board)
            & !from_mask & !dest_mask),
{
    *board = ((*board & from_mask) >> (down_shift as u64)) | (*board & !from_mask & !dest_mask);
}

impl BitBoard {
    pub fn get_piece(&self, row_idx: u8, col_idx: u8) -> (r: Option<(Player, PieceKind)>)
        requires
            self.wf(),
            row_idx < 9,
            col_idx < 7,
        ensures
            r == spec_piece_at(*self, row_idx, col_idx),
    {
        let hot_bit = 1u64 << ((7 * row_idx + col_idx) as u64);
        if (self.piece_mask & hot_bit) == 0 {
            return None;
        }
        proof {
            crate::bitlemmas::lemma_kind_at_piece(
                self.bishop_mask,
                self.king_mask,
                self.knight_mask,
                self.rook_mask,
                self.pawn_mask,
                self.piece_mask,
                hot_bit,
            );
        }
        let pl = if self.player_one_mask & hot_bit != 0 {
            Player::PlayerOne
        } else {
            Player::PlayerTwo
        };
        let k = if self.bishop_mask & hot_bit != 0 {
            PieceKind::B
        } else if self.king_mask & hot_bit != 0 {
            PieceKind::K
        } else if self.knight_mask & hot_bit != 0 {
            PieceKind::N
        } else if self.pawn_mask & hot_bit != 0 {
            PieceKind::P
        } else {
            PieceKind::R
        };
        Some((pl, k))
    }

    /// Reports the decided winner, if any.
    pub fn get_winner(&self) -> (r: Option<Player>)
        requires
            self.wf(),
        ensures
            r == spec_winner(*self),
    {
        if self.king_mask == 0 {
            return Some(self.current_player);
        }
        if (self.piece_mask & self.player_one_mask & self.king_mask) == 0 {
            return Some(Player::PlayerTwo);
        }
        if (self.piece_mask & !self.player_one_mask & self.king_mask) == 0 {
            return Some(Player::PlayerOne);
        }
        let moves = self.get_moves();
        if moves.len() == 0 {
            return Some(self.current_player.other());
        }
        None
    }

    /// Applies a move in place. The caller must draw the move from
    /// `get_moves`; the squares must in any case be real board squares.
    pub fn do_move(&mut self, mov: &BitBoardMove)
        requires
            old(self).wf(),
            mov.from_pos < 63,
            mov.dest_pos < 63,
        ensures
            *final(self) == spec_do_move(*old(self), *mov),
            final(self).wf(),
    {
        if mov.from_pos == mov.dest_pos {
            let mut mask: u64 = 1u64 << (mov.from_pos as u64);
            mask = mask | ((mask & 0x00ffffffffffffffu64) << 7);
            mask = mask | ((mask & 0x7fffffffffffff80u64) >> 7);
            mask = mask | ((mask & 0x3f7efdfbf7efdfbfu64) << 1);
            mask = mask | ((mask & 0x7efdfbf7efdfbf7eu64) >> 1);
            self.piece_mask = self.piece_mask & !mask;
            self.player_one_mask = self.player_one_mask & !mask;
            self.bishop_mask = self.bishop_mask & !mask;
            self.king_mask = self.king_mask & !mask;
            self.knight_mask = self.knight_mask & !mask;
            self.pawn_mask = self.pawn_mask & !mask;
            self.rook_mask = self.rook_mask & !mask;
        } else if mov.from_pos < mov.dest_pos {
            let from_mask = 1u64 << (mov.from_pos as u64);
            let dest_mask = 1u64 << (mov.dest_pos as u64);
            let up_shift = mov.dest_pos - mov.from_pos;
            do_move_up(&mut self.piece_mask, from_mask, dest_mask, up_shift);
            do_move_up(&mut self.player_one_mask, from_mask, dest_mask, up_shift);
            do_move_up(&mut self.bishop_mask, from_mask, dest_mask, up_shift);
            do_move_up(&mut self.king_mask, from_mask, dest_mask, up_shift);
            do_move_up(&mut self.knight_mask, from_mask, dest_mask, up_shift);
            do_move_up(&mut self.pawn_mask, from_mask, dest_mask, up_shift);
            do_move_up(&mut self.rook_mask, from_mask, dest_mask, up_shift);
        } else {
            let from_mask = 1u64 << (mov.from_pos as u64);
            let dest_mask = 1u64 << (mov.dest_pos as u64);
            let down_shift = mov.from_pos - mov.dest_pos;
            do_move_down(&mut self.piece_mask, from_mask, dest_mask, down_shift);
            do_move_down(&mut self.player_one_mask, from_mask, dest_mask, down_shift);
            do_move_down(&mut self.bishop_mask, from_mask, dest_mask, down_shift);
            do_move_down(&mut self.king_mask, from_mask, dest_mask, down_shift);
            do_move_down(&mut self.knight_mask, from_mask, dest_mask, down_shift);
            do_move_down(&mut self.pawn_mask, from_mask, dest_mask, down_shift);
            do_move_down(&mut self.rook_mask, from_mask, dest_mask, down_shift);
        }
        self.current_player = self.current_player.other();
        proof {
            crate::bitlemmas::lemma_do_move_wf(*old(self), *mov);
        }
    }

    fn board_array_representation(&self, board: u64) -> (r: [[u8; 7]; 9])
        ensures
            forall|ri: int, ci: int|
                0 <= ri < 9 && 0 <= ci < 7 ==> #[trigger] r@[ri]@[ci] as u64 == (board >> ((7 * ri
                    + ci) as u64)) & 1,
    {
        let mut ret: [[u8; 7]; 9] = [[0;7];9];
        let mut row: usize = 0;
        while row < 9
            invariant
                row <= 9,
                forall|ri: int, ci: int|
                    0 <= ri < row && 0 <= ci < 7 ==> #[trigger] ret@[ri]@[ci] as u64 == (board >> ((
                    7 * ri + ci) as u64)) & 1,
            decreases 9 - row,
        {
            let mut rowv: [u8; 7] = [0;7];
            let mut col: usize = 0;
            while col < 7
                invariant
                    col <= 7,
                    row < 9,
                    forall|ci: int|
                        0 <= ci < col ==> #[trigger] rowv@[ci] as u64 == (board >> ((7 * (
                        row as int) + ci) as u64)) & 1,
                decreases 7 - col,
            {
                let sh: u64 = (7 * row + col) as u64;
                proof {
                    crate::bitlemmas::lemma_bit01(board, sh);
                }
                rowv[col] = ((board >> sh) & 1) as u8;
                col = col + 1;
            }
            ret[row] = rowv;
            row = row + 1;
        }
        ret
    }

    /// The seven bit planes as 9x7 0/1 arrays, in the order occupancy,
    /// ownership, bishop, king, knight, pawn, rook.
    pub fn array_representation(&self) -> (r: [[[u8; 7]; 9]; 7])
        ensures
            forall|ri: int, ci: int|
                0 <= ri < 9 && 0 <= ci < 7 ==> {
                    &&& #[trigger] r@[0]@[ri]@[ci] as u64 == (self.piece_mask >> ((7 * ri
                        + ci) as u64)) & 1
                    &&& r@[1]@[ri]@[ci] as u64 == (self.player_one_mask >> ((7 * ri + ci) as u64))
                        & 1
                    &&& r@[2]@[ri]@[ci] as u64 == (self.bishop_mask >> ((7 * ri + ci) as u64)) & 1
                    &&& r@[3]@[ri]@[ci] as u64 == (self.king_mask >> ((7 * ri + ci) as u64)) & 1
                    &&& r@[4]@[ri]@[ci] as u64 == (self.knight_mask >> ((7 * ri + ci) as u64)) & 1
                    &&& r@[5]@[ri]@[ci] as u64 == (self.pawn_mask >> ((7 * ri + ci) as u64)) & 1
                    &&& r@[6]@[ri]@[ci] as u64 == (self.rook_mask >> ((7 * ri + ci) as u64)) & 1
                },
    {
        [
            self.board_array_representation(self.piece_mask),
            self.board_array_representation(self.player_one_mask),
            self.board_array_representation(self.bishop_mask),
            self.board_array_representation(self.king_mask),
            self.board_array_representation(self.knight_mask),
            self.board_array_representation(self.pawn_mask),
            self.board_array_representation(self.rook_mask),
        ]
    }
}

impl crate::board::Board<BitBoardMove> for BitBoard {
    open spec fn board_ok(&self) -> bool {
        self.wf()
    }

    open spec fn piece_model(&self, row: int, col: int) -> Option<(Player, PieceKind)> {
        spec_piece_at(*self, row as u8, col as u8)
    }

    open spec fn player_model(&self) -> Player {
        self.current_player
    }

    open spec fn moves_model(&self) -> Seq<BitBoardMove> {
        spec_moves(*self)
    }

    open spec fn winner_model(&self) -> Option<Player> {
        spec_winner(*self)
    }

    fn get_piece(&self, row: u8, col: u8) -> (r: Option<(Player, PieceKind)>) {
        BitBoard::get_piece(self, row, col)
    }

    fn get_player(&self) -> (r: Player) {
        BitBoard::get_player(self)
    }

    fn get_moves(&self) -> (r: Vec<BitBoardMove>) {
        BitBoard::get_moves(self)
    }

    fn get_winner(&self) -> (r: Option<Player>) {
        BitBoard::get_winner(self)
    }

    fn do_move(&mut self, mov: &BitBoardMove) {
        proof {
            crate::bitlemmas::lemma_row_col(mov.from_pos);
            crate::bitlemmas::lemma_row_col(mov.dest_pos);
        }
        let ghost pre = *self;
        BitBoard::do_move(self, mov);
        proof {
            let ((fr, fc), (dr, dc)) = mov.from_dest_model();
            if mov.from_pos == mov.dest_pos {
                assert forall|r2: int, c2: int|
                    0 <= r2 < 9 && 0 <= c2 < 7 implies #[trigger] self.piece_model(r2, c2) == (
                if crate::board::spec_adjacent(r2, c2, fr as int, fc as int) {
                    None
                } else {
                    pre.piece_model(r2, c2)
                }) by {
                    crate::bitlemmas::lemma_explosion_squares(
                        pre,
                        mov.from_pos / 7,
                        mov.from_pos % 7,
                        r2 as u8,
                        c2 as u8,
                    );
                }
            } else {
                assert((fr, fc) != (dr, dc));
                assert forall|r2: int, c2: int|
                    0 <= r2 < 9 && 0 <= c2 < 7 implies #[trigger] self.piece_model(r2, c2) == (
                if r2 == dr as int && c2 == dc as int {
                    pre.piece_model(fr as int, fc as int)
                } else if r2 == fr as int && c2 == fc as int {
                    None
                } else {
                    pre.piece_model(r2, c2)
                }) by {
                    crate::bitlemmas::lemma_move_squares(pre, *mov, r2 as u8, c2 as u8);
                }
            }
        }
    }

    fn invert(&self) -> (r: BitBoard) {
        let r = BitBoard::invert(self);
        proof {
            assert forall|r2: int, c2: int|
                0 <= r2 < 9 && 0 <= c2 < 7 implies #[trigger] r.piece_model(r2, c2)
                == crate::board::spec_mirror_piece(self.piece_model(8 - r2, c2)) by {
                crate::bitlemmas::lemma_invert_piece_at(*self, r2 as u8, c2 as u8);
            }
        }
        r
    }
}

/// The initial position as a value.
pub open spec fn spec_init() -> BitBoard {
    BitBoard {
        current_player: Player::PlayerOne,
        piece_mask: INIT_PIECE,
        player_one_mask: INIT_ONE,
        bishop_mask: INIT_BISHOP,
        king_mask: INIT_KING,
        knight_mask: INIT_KNIGHT,
        rook_mask: INIT_ROOK,
        pawn_mask: INIT_PAWN,
    }
}

} // verus!
