use vstd::prelude::*;

verus! {

/// Why a square reference or a move is rejected.
#[derive(Clone, Copy, Debug, Eq, PartialEq, Structural)]
pub enum MoveError {
    NoSuchPiece,
    NotYourPiece,
    InvalidPosition,
    InvalidMove,
}

/// The five piece kinds of the variant: bishop, king, knight, rook, pawn.
#[derive(Clone, Copy, Debug, Eq, PartialEq, Hash, Structural)]
pub enum PieceKind {
    B,
    K,
    N,
    R,
    P,
}

/// The two sides. Player one's pieces move toward increasing row numbers,
/// player two's toward decreasing ones.
#[derive(Clone, Copy, Debug, Eq, PartialEq, Hash, Structural)]
pub enum Player {
    PlayerOne,
    PlayerTwo,
}

/// The opponent of `p`.
pub open spec fn spec_other(p: Player) -> Player {
    match p {
        Player::PlayerOne => Player::PlayerTwo,
        Player::PlayerTwo => Player::PlayerOne,
    }
}

/// +1 for player one, -1 for player two: the forward direction along rows.
pub open spec fn spec_parity(p: Player) -> int {
    match p {
        Player::PlayerOne => 1,
        Player::PlayerTwo => -1,
    }
}

impl Player {
    pub fn other(&self) -> (r: Player)
        ensures
            r == spec_other(*self),
    {
        match self {
            Self::PlayerOne => Self::PlayerTwo,
            Self::PlayerTwo => Self::PlayerOne,
        }
    }

    pub fn parity(&self) -> (r: i8)
        ensures
            r as int == spec_parity(*self),
    {
        match self {
            Self::PlayerOne => 1,
            Self::PlayerTwo => -1,
        }
    }

    pub fn ord(&self) -> (r: i8)
        ensures
            *self == Player::PlayerOne ==> r == 1,
            *self == Player::PlayerTwo ==> r == 2,
    {
        match self {
            Self::PlayerOne => 1,
            Self::PlayerTwo => 2,
        }
    }
}

/// Square `(r, c)` and square `(fr, fc)` are orthogonal or diagonal
/// neighbors, or the same square.
pub open spec fn spec_adjacent(r: int, c: int, fr: int, fc: int) -> bool {
    -1 <= r - fr <= 1 && -1 <= c - fc <= 1
}

/// The piece on a square of the mirrored position, with its owner swapped.
pub open spec fn spec_mirror_piece(p: Option<(Player, PieceKind)>) -> Option<(Player, PieceKind)> {
    match p {
        Some((pl, k)) => Some((spec_other(pl), k)),
        None => None,
    }
}

/// A move value of a 9x7 board game: the capability interface the engines
/// and the presentation layers need of a move.
pub trait Mov: Sized {
    /// Both squares of the move lie on the board.
    spec fn mov_ok(&self) -> bool;

    /// The (origin, destination) squares, as (row, column) pairs.
    spec fn from_dest_model(&self) -> ((u8, u8), (u8, u8));

    /// The move mirrored vertically: rows reflected, columns kept.
    spec fn inverted(&self) -> Self;

    fn invert(&self) -> (r: Self)
        requires
            self.mov_ok(),
        ensures
            r == self.inverted(),
            r.mov_ok(),
    ;

    fn get_from_dest(&self) -> (r: ((u8, u8), (u8, u8)))
        ensures
            r == self.from_dest_model(),
    ;
}

/// A board representation of the game: what the search engines and the
/// presentation layers consume. An implementation exposes its invariant and
/// its mathematical reading of the position, and its operations are bound
/// to that reading.
pub trait Board<M: Mov>: Sized {
    /// The representation invariant.
    spec fn board_ok(&self) -> bool;

    /// The piece standing on (row, col), if any.
    spec fn piece_model(&self, row: int, col: int) -> Option<(Player, PieceKind)>;

    /// The side to move.
    spec fn player_model(&self) -> Player;

    /// The legal moves of the side to move, in the representation's scan
    /// order.
    spec fn moves_model(&self) -> Seq<M>;

    /// The decided winner, if any.
    spec fn winner_model(&self) -> Option<Player>;

    fn get_piece(&self, row: u8, col: u8) -> (r: Option<(Player, PieceKind)>)
        requires
            self.board_ok(),
            row < 9,
            col < 7,
        ensures
            r == self.piece_model(row as int, col as int),
    ;

    fn get_player(&self) -> (r: Player)
        ensures
            r == self.player_model(),
    ;

    fn get_moves(&self) -> (r: Vec<M>)
        requires
            self.board_ok(),
        ensures
            r@ == self.moves_model(),
            forall|i: int| 0 <= i < r@.len() ==> (#[trigger] r@[i]).mov_ok(),
    ;

    fn get_winner(&self) -> (r: Option<Player>)
        requires
            self.board_ok(),
        ensures
            r == self.winner_model(),
    ;

    fn do_move(&mut self, mov: &M)
        requires
            old(self).board_ok(),
            mov.mov_ok(),
        ensures
            final(self).board_ok(),
            final(self).player_model() == spec_other(old(self).player_model()),
            ({
                let ((fr, fc), (dr, dc)) = mov.from_dest_model();
                &&& ((fr, fc) == (dr, dc) ==> forall|r2: int, c2: int|
                    0 <= r2 < 9 && 0 <= c2 < 7 ==> #[trigger] final(self).piece_model(r2, c2) == (
                    if spec_adjacent(r2, c2, fr as int, fc as int) {
                        None
                    } else {
                        old(self).piece_model(r2, c2)
                    }))
                &&& ((fr, fc) != (dr, dc) ==> {
                    &&& final(self).piece_model(dr as int, dc as int) == old(self).piece_model(
                        fr as int,
                        fc as int,
                    )
                    &&& final(self).piece_model(fr as int, fc as int) is None
                    &&& forall|r2: int, c2: int|
                        0 <= r2 < 9 && 0 <= c2 < 7 && !(r2 == fr as int && c2 == fc as int) && !(
                        r2 == dr as int && c2 == dc as int)
                            ==> #[trigger] final(self).piece_model(r2, c2) == old(
                            self,
                        ).piece_model(r2, c2)
                })
            }),
    ;

    fn invert(&self) -> (r: Self)
        requires
            self.board_ok(),
        ensures
            r.board_ok(),
            r.player_model() == spec_other(self.player_model()),
            forall|r2: int, c2: int|
                0 <= r2 < 9 && 0 <= c2 < 7 ==> #[trigger] r.piece_model(r2, c2)
                    == spec_mirror_piece(self.piece_model(8 - r2, c2)),
    ;
}

} // verus!
