use vstd::prelude::*;
use vstd::string::StringExecFns;

use crate::bitboard::{spec_file_char, spec_rank_char};
use crate::board::{spec_other, spec_parity, Mov, MoveError, PieceKind, Player};

verus! {

/// A move between two (row, col) squares; identical squares denote an
/// explosion.
#[derive(Clone, Copy, Eq, Debug, PartialEq)]
pub struct SimpleMove {
    pub from_rc: (u8, u8),
    pub dest_rc: (u8, u8),
}

/// The four-character token of a move, matching the packed representation's
/// notation.
pub open spec fn spec_simple_notation(m: SimpleMove) -> Seq<char> {
    seq![
        spec_file_char(m.from_rc.1 as int),
        spec_rank_char(m.from_rc.0 as int),
        spec_file_char(m.dest_rc.1 as int),
        spec_rank_char(m.dest_rc.0 as int),
    ]
}

impl Mov for SimpleMove {
    open spec fn mov_ok(&self) -> bool {
        self.from_rc.0 < 9 && self.from_rc.1 < 7 && self.dest_rc.0 < 9 && self.dest_rc.1 < 7
    }

    open spec fn from_dest_model(&self) -> ((u8, u8), (u8, u8)) {
        (self.from_rc, self.dest_rc)
    }

    open spec fn inverted(&self) -> SimpleMove {
        SimpleMove {
            from_rc: ((8 - self.from_rc.0 as int) as u8, self.from_rc.1),
            dest_rc: ((8 - self.dest_rc.0 as int) as u8, self.dest_rc.1),
        }
    }

    fn invert(&self) -> (r: SimpleMove) {
        SimpleMove {
            from_rc: (8 - self.from_rc.0, self.from_rc.1),
            dest_rc: (8 - self.dest_rc.0, self.dest_rc.1),
        }
    }

    fn get_from_dest(&self) -> (r: ((u8, u8), (u8, u8))) {
        (self.from_rc, self.dest_rc)
    }
}

impl SimpleMove {
    /// The move's textual token, e.g. "B1C3".
    pub fn notation(&self) -> (r: String)
        requires
            self.from_rc.0 < 9,
            self.from_rc.1 < 7,
            self.dest_rc.0 < 9,
            self.dest_rc.1 < 7,
        ensures
            r@ == spec_simple_notation(*self),
    {
        let mut s = String::new();
        s.append(crate::bitboard::file_str(self.from_rc.1));
        s.append(crate::bitboard::rank_str(self.from_rc.0));
        s.append(crate::bitboard::file_str(self.dest_rc.1));
        s.append(crate::bitboard::rank_str(self.dest_rc.0));
        proof {
            assert(s@ =~= spec_simple_notation(*self));
        }
        s
    }
}

/// The array-of-squares representation of the same game: each square holds
/// its piece, if any, and the side to move is stored beside the grid.
#[derive(Clone, Copy, Eq, PartialEq)]
pub struct SimpleBoard {
    pub current_player: Player,
    pub rows: [[Option<(Player, PieceKind)>; 7]; 9],
}

/// The piece on square (r, c), if any.
pub open spec fn sq(b: SimpleBoard, r: int, c: int) -> Option<(Player, PieceKind)> {
    b.rows@[r]@[c]
}

/// Rejects coordinates that name no board square.
pub fn check_pos(pos: (u8, u8)) -> (r: Result<(u8, u8), MoveError>)
    ensures
        pos.0 < 9 && pos.1 < 7 ==> r == Ok::<(u8, u8), MoveError>(pos),
        !(pos.0 < 9 && pos.1 < 7) ==> r == Err::<(u8, u8), MoveError>(MoveError::InvalidPosition),
{
    if pos.0 >= 9 || pos.1 >= 7 {
        return Err(MoveError::InvalidPosition);
    }
    Ok(pos)
}

/// The square one (dr, dc) step away, if it exists.
pub open spec fn spec_step(pos: (u8, u8), dr: int, dc: int) -> Option<(u8, u8)> {
    let nr = pos.0 + dr;
    let nc = pos.1 + dc;
    if 0 <= nr < 9 && 0 <= nc < 7 {
        Some((nr as u8, nc as u8))
    } else {
        None
    }
}

/// A move-or-capture target: the stepped square unless the mover's own side
/// holds it.
pub open spec fn spec_free_target(
    b: SimpleBoard,
    player: Player,
    pos: (u8, u8),
    dr: int,
    dc: int,
) -> Seq<(u8, u8)> {
    match spec_step(pos, dr, dc) {
        None => Seq::empty(),
        Some(p) => match sq(b, p.0 as int, p.1 as int) {
            Some((pl, k)) => if pl == player {
                Seq::empty()
            } else {
                seq![p]
            },
            None => seq![p],
        },
    }
}

/// A capture-only target: the stepped square only if the enemy holds it.
pub open spec fn spec_capture_target(
    b: SimpleBoard,
    player: Player,
    pos: (u8, u8),
    dr: int,
    dc: int,
) -> Seq<(u8, u8)> {
    match spec_step(pos, dr, dc) {
        None => Seq::empty(),
        Some(p) => match sq(b, p.0 as int, p.1 as int) {
            Some((pl, k)) => if pl == player {
                Seq::empty()
            } else {
                seq![p]
            },
            None => Seq::empty(),
        },
    }
}

/// A move-only target: the stepped square only if it is empty.
pub open spec fn spec_empty_target(b: SimpleBoard, pos: (u8, u8), dr: int, dc: int) -> Seq<
    (u8, u8),
> {
    match spec_step(pos, dr, dc) {
        None => Seq::empty(),
        Some(p) => match sq(b, p.0 as int, p.1 as int) {
            Some(_) => Seq::empty(),
            None => seq![p],
        },
    }
}

/// The ray from (r, c) in direction (dr, dc): the squares a slider may pass
/// or stop on, and the capture square if the ray ends on an enemy piece.
pub open spec fn spec_ray(b: SimpleBoard, player: Player, r: int, c: int, dr: int, dc: int) -> (
    Seq<(u8, u8)>,
    Option<(u8, u8)>,
)
    decreases ray_fuel(r, c, dr, dc),
        when -1 <= dr <= 1 && -1 <= dc <= 1 && !(dr == 0 && dc == 0) && 0 <= r < 9 && 0 <= c < 7
{
    let nr = r + dr;
    let nc = c + dc;
    if !(0 <= nr < 9 && 0 <= nc < 7) {
        (Seq::empty(), None)
    } else {
        match sq(b, nr, nc) {
            Some((pl, k)) => if pl == player {
                (Seq::empty(), None)
            } else {
                (seq![(nr as u8, nc as u8)], Some((nr as u8, nc as u8)))
            },
            None => {
                let rest = spec_ray(b, player, nr, nc, dr, dc);
                (seq![(nr as u8, nc as u8)] + rest.0, rest.1)
            },
        }
    }
}

/// Steps left before the ray must leave the board.
pub open spec fn ray_fuel(r: int, c: int, dr: int, dc: int) -> int {
    if dr > 0 {
        8 - r
    } else if dr < 0 {
        r
    } else if dc > 0 {
        6 - c
    } else {
        c
    }
}

impl SimpleBoard {
    /// Appends a move-or-capture target, if the step exists and is open.
    fn push_free_target(&self, ret: &mut Vec<(u8, u8)>, player: Player, pos: (u8, u8), dr: i16, dc: i16)
        requires
            pos.0 < 9,
            pos.1 < 7,
            -2 <= dr <= 2,
            -2 <= dc <= 2,
        ensures
            final(ret)@ == old(ret)@ + spec_free_target(*self, player, pos, dr as int, dc as int),
            forall|i: int|
                old(ret)@.len() <= i < final(ret)@.len() ==> (#[trigger] final(ret)@[i]).0 < 9
                    && final(ret)@[i].1 < 7,
    {
        let nr = pos.0 as i16 + dr;
        let nc = pos.1 as i16 + dc;
        if 0 <= nr && nr < 9 && 0 <= nc && nc < 7 {
            let p = (nr as u8, nc as u8);
            let keep = match self.rows[nr as usize][nc as usize] {
                Some((pl, _)) => !(pl == player),
                None => true,
            };
            if keep {
                ret.push(p);
                proof {
                    assert(final(ret)@ =~= old(ret)@ + spec_free_target(
                        *self,
                        player,
                        pos,
                        dr as int,
                        dc as int,
                    ));
                }
                return ;
            }
        }
        proof {
            assert(final(ret)@ =~= old(ret)@ + spec_free_target(
                *self,
                player,
                pos,
                dr as int,
                dc as int,
            ));
        }
    }

    /// Appends a capture-only target, if the step exists and an enemy piece
    /// stands there.
    fn push_capture_target(&self, ret: &mut Vec<(u8, u8)>, player: Player, pos: (u8, u8), dr: i16, dc: i16)
        requires
            pos.0 < 9,
            pos.1 < 7,
            -2 <= dr <= 2,
            -2 <= dc <= 2,
        ensures
            final(ret)@ == old(ret)@ + spec_capture_target(
                *self,
                player,
                pos,
                dr as int,
                dc as int,
            ),
            forall|i: int|
                old(ret)@.len() <= i < final(ret)@.len() ==> (#[trigger] final(ret)@[i]).0 < 9
                    && final(ret)@[i].1 < 7,
    {
        let nr = pos.0 as i16 + dr;
        let nc = pos.1 as i16 + dc;
        if 0 <= nr && nr < 9 && 0 <= nc && nc < 7 {
            let p = (nr as u8, nc as u8);
            let keep = match self.rows[nr as usize][nc as usize] {
                Some((pl, _)) => !(pl == player),
                None => false,
            };
            if keep {
                ret.push(p);
                proof {
                    assert(final(ret)@ =~= old(ret)@ + spec_capture_target(
                        *self,
                        player,
                        pos,
                        dr as int,
                        dc as int,
                    ));
                }
                return ;
            }
        }
        proof {
            assert(final(ret)@ =~= old(ret)@ + spec_capture_target(
                *self,
                player,
                pos,
                dr as int,
                dc as int,
            ));
        }
    }

    /// Appends a move-only target, if the step exists and is empty.
    fn push_empty_target(&self, ret: &mut Vec<(u8, u8)>, pos: (u8, u8), dr: i16, dc: i16)
        requires
            pos.0 < 9,
            pos.1 < 7,
            -2 <= dr <= 2,
            -2 <= dc <= 2,
        ensures
            final(ret)@ == old(ret)@ + spec_empty_target(*self, pos, dr as int, dc as int),
            forall|i: int|
                old(ret)@.len() <= i < final(ret)@.len() ==> (#[trigger] final(ret)@[i]).0 < 9
                    && final(ret)@[i].1 < 7,
    {
        let nr = pos.0 as i16 + dr;
        let nc = pos.1 as i16 + dc;
        if 0 <= nr && nr < 9 && 0 <= nc && nc < 7 {
            let p = (nr as u8, nc as u8);
            let keep = match self.rows[nr as usize][nc as usize] {
                Some(_) => false,
                None => true,
            };
            if keep {
                ret.push(p);
                proof {
                    assert(final(ret)@ =~= old(ret)@ + spec_empty_target(
                        *self,
                        pos,
                        dr as int,
                        dc as int,
                    ));
                }
                return ;
            }
        }
        proof {
            assert(final(ret)@ =~= old(ret)@ + spec_empty_target(*self, pos, dr as int, dc as int));
        }
    }

    #[verifier::rlimit(50)]
    fn ray_step(&self, player: Player, r: u8, c: u8, dr: i16, dc: i16) -> (res: (
        Vec<(u8, u8)>,
        Option<(u8, u8)>,
    ))
        requires
            -1 <= dr <= 1,
            -1 <= dc <= 1,
            !(dr == 0 && dc == 0),
            r < 9,
            c < 7,
        ensures
            (res.0@, res.1) == spec_ray(*self, player, r as int, c as int, dr as int, dc as int),
            forall|i: int|
                0 <= i < res.0@.len() ==> (#[trigger] res.0@[i]).0 < 9 && res.0@[i].1 < 7,
            res.1 matches Some(p) ==> p.0 < 9 && p.1 < 7,
        decreases ray_fuel(r as int, c as int, dr as int, dc as int),
    {
        let nr = r as i16 + dr;
        let nc = c as i16 + dc;
        if nr < 0 || nr >= 9 || nc < 0 || nc >= 7 {
            (Vec::new(), None)
        } else {
            let nru = nr as u8;
            let ncu = nc as u8;
            match self.rows[nr as usize][nc as usize] {
                Some((pl, _)) => {
                    if pl == player {
                        (Vec::new(), None)
                    } else {
                        let mut v: Vec<(u8, u8)> = Vec::new();
                        v.push((nru, ncu));
                        proof {
                            assert(v@ =~= seq![(nru, ncu)]);
                        }
                        (v, Some((nru, ncu)))
                    }
                },
                None => {
                    let (mut rest, cap) = self.ray_step(player, nru, ncu, dr, dc);
                    rest.insert(0, (nru, ncu));
                    proof {
                        assert(rest@ =~= seq![(nru, ncu)] + spec_ray(
                            *self,
                            player,
                            nr as int,
                            nc as int,
                            dr as int,
                            dc as int,
                        ).0);
                    }
                    (rest, cap)
                },
            }
        }
    }

    /// Walks one ray and reports the squares passed and the capture square
    /// reached, if any.
    pub fn raycast_moves(&self, player: &Player, pos: (u8, u8), del: (i8, i8)) -> (res: (
        Vec<(u8, u8)>,
        Option<(u8, u8)>,
    ))
        requires
            pos.0 < 9,
            pos.1 < 7,
            -1 <= del.0 <= 1,
            -1 <= del.1 <= 1,
            !(del.0 == 0 && del.1 == 0),
        ensures
            (res.0@, res.1) == spec_ray(
                *self,
                *player,
                pos.0 as int,
                pos.1 as int,
                del.0 as int,
                del.1 as int,
            ),
            forall|i: int|
                0 <= i < res.0@.len() ==> (#[trigger] res.0@[i]).0 < 9 && res.0@[i].1 < 7,
            res.1 matches Some(p) ==> p.0 < 9 && p.1 < 7,
    {
        self.ray_step(*player, pos.0, pos.1, del.0 as i16, del.1 as i16)
    }
}

/// The capture square of a ray as a (possibly empty) target list.
pub open spec fn opt_seq(o: Option<(u8, u8)>) -> Seq<(u8, u8)> {
    match o {
        Some(p) => seq![p],
        None => Seq::empty(),
    }
}

/// Bishop targets: the self square, the two forward diagonal rays, then the
/// capture ends of the two backward diagonal rays.
pub open spec fn spec_simple_bishop(b: SimpleBoard, player: Player, pos: (u8, u8)) -> Seq<
    (u8, u8),
> {
    let par = spec_parity(player);
    let r = pos.0 as int;
    let c = pos.1 as int;
    seq![pos] + spec_ray(b, player, r, c, par, 1).0 + spec_ray(b, player, r, c, par, -1).0
        + opt_seq(spec_ray(b, player, r, c, -par, 1).1) + opt_seq(
        spec_ray(b, player, r, c, -par, -1).1,
    )
}

/// King targets: the self square, then one step forward, forward-left and
/// forward-right, never onto an own piece.
pub open spec fn spec_simple_king(b: SimpleBoard, player: Player, pos: (u8, u8)) -> Seq<(u8, u8)> {
    let par = spec_parity(player);
    seq![pos] + spec_free_target(b, player, pos, par, 0) + spec_free_target(b, player, pos, par, -1)
        + spec_free_target(b, player, pos, par, 1)
}

/// Pawn targets: the self square, one step forward onto an empty square,
/// then the two forward-diagonal captures.
pub open spec fn spec_simple_pawn(b: SimpleBoard, player: Player, pos: (u8, u8)) -> Seq<(u8, u8)> {
    let par = spec_parity(player);
    seq![pos] + spec_empty_target(b, pos, par, 0) + spec_capture_target(b, player, pos, par, 1)
        + spec_capture_target(b, player, pos, par, -1)
}

/// Rook targets: the self square, the forward and the two sideways rays,
/// then the capture end of the backward ray.
pub open spec fn spec_simple_rook(b: SimpleBoard, player: Player, pos: (u8, u8)) -> Seq<(u8, u8)> {
    let par = spec_parity(player);
    let r = pos.0 as int;
    let c = pos.1 as int;
    seq![pos] + spec_ray(b, player, r, c, par, 0).0 + spec_ray(b, player, r, c, 0, 1).0 + spec_ray(
        b,
        player,
        r,
        c,
        0,
        -1,
    ).0 + opt_seq(spec_ray(b, player, r, c, -par, 0).1)
}

/// Knight targets: the self square, the four forward L-offsets (move or
/// capture), then the four backward L-offsets (capture only).
pub open spec fn spec_simple_knight(b: SimpleBoard, player: Player, pos: (u8, u8)) -> Seq<
    (u8, u8),
> {
    let par = spec_parity(player);
    seq![pos] + spec_free_target(b, player, pos, 2 * par, 1) + spec_free_target(
        b,
        player,
        pos,
        2 * par,
        -1,
    ) + spec_free_target(b, player, pos, par, 2) + spec_free_target(b, player, pos, par, -2)
        + spec_capture_target(b, player, pos, -2 * par, 1) + spec_capture_target(
        b,
        player,
        pos,
        -2 * par,
        -1,
    ) + spec_capture_target(b, player, pos, -par, 2) + spec_capture_target(b, player, pos, -par, -2)
}

fn extend_squares(ret: &mut Vec<(u8, u8)>, src: &Vec<(u8, u8)>)
    ensures
        final(ret)@ == old(ret)@ + src@,
{
    let mut i: usize = 0;
    while i < src.len()
        invariant
            i <= src@.len(),
            ret@ =~= old(ret)@ + src@.subrange(0, i as int),
        decreases src@.len() - i,
    {
        ret.push(src[i]);
        i = i + 1;
    }
    proof {
        assert(src@.subrange(0, src@.len() as int) =~= src@);
    }
}

impl SimpleBoard {
    pub fn get_bishop_moves(&self, player: &Player, pos: (u8, u8)) -> (r: Vec<(u8, u8)>)
        requires
            pos.0 < 9,
            pos.1 < 7,
        ensures
            r@ == spec_simple_bishop(*self, *player, pos),
            forall|i: int| 0 <= i < r@.len() ==> (#[trigger] r@[i]).0 < 9 && r@[i].1 < 7,
    {
        let par = player.parity();
        let mut ret: Vec<(u8, u8)> = Vec::new();
        ret.push(pos);
        let (v1, _) = self.raycast_moves(player, pos, (par, 1));
        extend_squares(&mut ret, &v1);
        let (v2, _) = self.raycast_moves(player, pos, (par, -1));
        extend_squares(&mut ret, &v2);
        let (_, a1) = self.raycast_moves(player, pos, (-par, 1));
        match a1 {
            Some(p) => ret.push(p),
            None => {},
        }
        let (_, a2) = self.raycast_moves(player, pos, (-par, -1));
        match a2 {
            Some(p) => ret.push(p),
            None => {},
        }
        proof {
            assert(ret@ =~= spec_simple_bishop(*self, *player, pos));
        }
        ret
    }

    pub fn get_king_moves(&self, player: &Player, pos: (u8, u8)) -> (r: Vec<(u8, u8)>)
        requires
            pos.0 < 9,
            pos.1 < 7,
        ensures
            r@ == spec_simple_king(*self, *player, pos),
            forall|i: int| 0 <= i < r@.len() ==> (#[trigger] r@[i]).0 < 9 && r@[i].1 < 7,
    {
        let par = player.parity() as i16;
        let mut ret: Vec<(u8, u8)> = Vec::new();
        ret.push(pos);
        self.push_free_target(&mut ret, *player, pos, par, 0);
        self.push_free_target(&mut ret, *player, pos, par, -1);
        self.push_free_target(&mut ret, *player, pos, par, 1);
        proof {
            assert(ret@ =~= spec_simple_king(*self, *player, pos));
        }
        ret
    }

    pub fn get_pawn_moves(&self, player: &Player, pos: (u8, u8)) -> (r: Vec<(u8, u8)>)
        requires
            pos.0 < 9,
            pos.1 < 7,
        ensures
            r@ == spec_simple_pawn(*self, *player, pos),
            forall|i: int| 0 <= i < r@.len() ==> (#[trigger] r@[i]).0 < 9 && r@[i].1 < 7,
    {
        let par = player.parity() as i16;
        let mut ret: Vec<(u8, u8)> = Vec::new();
        ret.push(pos);
        self.push_empty_target(&mut ret, pos, par, 0);
        self.push_capture_target(&mut ret, *player, pos, par, 1);
        self.push_capture_target(&mut ret, *player, pos, par, -1);
        proof {
            assert(ret@ =~= spec_simple_pawn(*self, *player, pos));
        }
        ret
    }

    pub fn get_rook_moves(&self, player: &Player, pos: (u8, u8)) -> (r: Vec<(u8, u8)>)
        requires
            pos.0 < 9,
            pos.1 < 7,
        ensures
            r@ == spec_simple_rook(*self, *player, pos),
            forall|i: int| 0 <= i < r@.len() ==> (#[trigger] r@[i]).0 < 9 && r@[i].1 < 7,
    {
        let par = player.parity();
        let mut ret: Vec<(u8, u8)> = Vec::new();
        ret.push(pos);
        let (v1, _) = self.raycast_moves(player, pos, (par, 0));
        extend_squares(&mut ret, &v1);
        let (v2, _) = self.raycast_moves(player, pos, (0, 1));
        extend_squares(&mut ret, &v2);
        let (v3, _) = self.raycast_moves(player, pos, (0, -1));
        extend_squares(&mut ret, &v3);
        let (_, a1) = self.raycast_moves(player, pos, (-par, 0));
        match a1 {
            Some(p) => ret.push(p),
            None => {},
        }
        proof {
            assert(ret@ =~= spec_simple_rook(*self, *player, pos));
        }
        ret
    }

    pub fn get_knight_moves(&self, player: &Player, pos: (u8, u8)) -> (r: Vec<(u8, u8)>)
        requires
            pos.0 < 9,
            pos.1 < 7,
        ensures
            r@ == spec_simple_knight(*self, *player, pos),
            forall|i: int| 0 <= i < r@.len() ==> (#[trigger] r@[i]).0 < 9 && r@[i].1 < 7,
    {
        let par = player.parity() as i16;
        let mut ret: Vec<(u8, u8)> = Vec::new();
        ret.push(pos);
        self.push_free_target(&mut ret, *player, pos, 2 * par, 1);
        self.push_free_target(&mut ret, *player, pos, 2 * par, -1);
        self.push_free_target(&mut ret, *player, pos, par, 2);
        self.push_free_target(&mut ret, *player, pos, par, -2);
        self.push_capture_target(&mut ret, *player, pos, -2 * par, 1);
        self.push_capture_target(&mut ret, *player, pos, -2 * par, -1);
        self.push_capture_target(&mut ret, *player, pos, -par, 2);
        self.push_capture_target(&mut ret, *player, pos, -par, -2);
        proof {
            assert(ret@ =~= spec_simple_knight(*self, *player, pos));
        }
        ret
    }
}

/// The target list for a piece of the given kind.
pub open spec fn spec_targets(b: SimpleBoard, player: Player, kind: PieceKind, pos: (u8, u8)) -> Seq<(u8, u8)> {
    match kind {
        PieceKind::B => spec_simple_bishop(b, player, pos),
        PieceKind::K => spec_simple_king(b, player, pos),
        PieceKind::N => spec_simple_knight(b, player, pos),
        PieceKind::P => spec_simple_pawn(b, player, pos),
        PieceKind::R => spec_simple_rook(b, player, pos),
    }
}

/// The moves contributed by square `i` (row-major index): the targets of
/// the side-to-move's piece there, if any.
pub open spec fn spec_square_moves(b: SimpleBoard, i: int) -> Seq<SimpleMove> {
    let r = i / 7;
    let c = i % 7;
    match sq(b, r, c) {
        Some((pl, kind)) => if pl == b.current_player {
            spec_targets(b, pl, kind, (r as u8, c as u8)).map_values(
                |t: (u8, u8)| SimpleMove { from_rc: (r as u8, c as u8), dest_rc: t },
            )
        } else {
            Seq::empty()
        },
        None => Seq::empty(),
    }
}

/// All moves from square index `i` upward, in row-major scan order.
pub open spec fn spec_simple_moves_from(b: SimpleBoard, i: int) -> Seq<SimpleMove>
    decreases 63 - i,
{
    if i < 0 || i >= 63 {
        Seq::empty()
    } else {
        spec_square_moves(b, i) + spec_simple_moves_from(b, i + 1)
    }
}

/// The legal moves of the side to move, squares scanned in row-major order.
pub open spec fn spec_simple_moves(b: SimpleBoard) -> Seq<SimpleMove> {
    spec_simple_moves_from(b, 0)
}

/// Some king of either side still stands.
pub open spec fn spec_any_king(b: SimpleBoard) -> bool {
    exists|r: int, c: int|
        0 <= r < 9 && 0 <= c < 7 && (#[trigger] sq(b, r, c)) matches Some((_, PieceKind::K))
}

/// The given side still has a king.
pub open spec fn spec_has_king(b: SimpleBoard, pl: Player) -> bool {
    exists|r: int, c: int|
        0 <= r < 9 && 0 <= c < 7 && #[trigger] sq(b, r, c) == Some((pl, PieceKind::K))
}

/// The decided winner, if any, mirroring the packed representation's rule:
/// a side without a king loses at once, and a side to move without a legal
/// move loses.
pub open spec fn spec_simple_winner(b: SimpleBoard) -> Option<Player> {
    if !spec_any_king(b) {
        Some(b.current_player)
    } else if !spec_has_king(b, Player::PlayerOne) {
        Some(Player::PlayerTwo)
    } else if !spec_has_king(b, Player::PlayerTwo) {
        Some(Player::PlayerOne)
    } else if spec_simple_moves(b).len() == 0 {
        Some(spec_other(b.current_player))
    } else {
        None
    }
}

/// The piece the fixed initial layout puts on square (r, c), if any.
pub open spec fn spec_simple_init_piece(r: int, c: int) -> Option<(Player, PieceKind)> {
    if r == 0 {
        if c == 1 || c == 5 {
            Some((Player::PlayerOne, PieceKind::N))
        } else if c == 2 || c == 4 {
            Some((Player::PlayerOne, PieceKind::R))
        } else if c == 3 {
            Some((Player::PlayerOne, PieceKind::K))
        } else {
            None
        }
    } else if r == 1 || r == 2 {
        if c == 3 {
            Some((Player::PlayerOne, PieceKind::B))
        } else {
            None
        }
    } else if r == 3 {
        if c % 2 == 0 {
            Some((Player::PlayerOne, PieceKind::P))
        } else {
            None
        }
    } else if r == 5 {
        if c % 2 == 0 {
            Some((Player::PlayerTwo, PieceKind::P))
        } else {
            None
        }
    } else if r == 6 || r == 7 {
        if c == 3 {
            Some((Player::PlayerTwo, PieceKind::B))
        } else {
            None
        }
    } else if r == 8 {
        if c == 1 || c == 5 {
            Some((Player::PlayerTwo, PieceKind::N))
        } else if c == 2 || c == 4 {
            Some((Player::PlayerTwo, PieceKind::R))
        } else if c == 3 {
            Some((Player::PlayerTwo, PieceKind::K))
        } else {
            None
        }
    } else {
        None
    }
}

impl SimpleBoard {
    /// The fixed initial layout, player one to move.
    pub fn init() -> (r: Self)
        ensures
            r.current_player == Player::PlayerOne,
            forall|ri: int, ci: int|
                0 <= ri < 9 && 0 <= ci < 7 ==> #[trigger] sq(r, ri, ci) == spec_simple_init_piece(
                    ri,
                    ci,
                ),
    {
        let rows: [[Option<(Player, PieceKind)>; 7]; 9] = [
            [
                None,
                Some((Player::PlayerOne, PieceKind::N)),
                Some((Player::PlayerOne, PieceKind::R)),
                Some((Player::PlayerOne, PieceKind::K)),
                Some((Player::PlayerOne, PieceKind::R)),
                Some((Player::PlayerOne, PieceKind::N)),
                None,
            ],
            [None, None, None, Some((Player::PlayerOne, PieceKind::B)), None, None, None],
            [None, None, None, Some((Player::PlayerOne, PieceKind::B)), None, None, None],
            [
                Some((Player::PlayerOne, PieceKind::P)),
                None,
                Some((Player::PlayerOne, PieceKind::P)),
                None,
                Some((Player::PlayerOne, PieceKind::P)),
                None,
                Some((Player::PlayerOne, PieceKind::P)),
            ],
            [None, None, None, None, None, None, None],
            [
                Some((Player::PlayerTwo, PieceKind::P)),
                None,
                Some((Player::PlayerTwo, PieceKind::P)),
                None,
                Some((Player::PlayerTwo, PieceKind::P)),
                None,
                Some((Player::PlayerTwo, PieceKind::P)),
            ],
            [None, None, None, Some((Player::PlayerTwo, PieceKind::B)), None, None, None],
            [None, None, None, Some((Player::PlayerTwo, PieceKind::B)), None, None, None],
            [
                None,
                Some((Player::PlayerTwo, PieceKind::N)),
                Some((Player::PlayerTwo, PieceKind::R)),
                Some((Player::PlayerTwo, PieceKind::K)),
                Some((Player::PlayerTwo, PieceKind::R)),
                Some((Player::PlayerTwo, PieceKind::N)),
                None,
            ],
        ];
        let b = SimpleBoard { current_player: Player::PlayerOne, rows };
        b
    }

    pub fn get_piece(&self, row: u8, col: u8) -> (r: Option<(Player, PieceKind)>)
        requires
            row < 9,
            col < 7,
        ensures
            r == sq(*self, row as int, col as int),
    {
        self.rows[row as usize][col as usize]
    }

    pub fn get_player(&self) -> (r: Player)
        ensures
            r == self.current_player,
    {
        self.current_player
    }

    /// Enumerates the legal moves of the side to move, scanning the squares
    /// in row-major order.
    pub fn get_moves(&self) -> (r: Vec<SimpleMove>)
        ensures
            r@ == spec_simple_moves(*self),
            forall|i: int|
                0 <= i < r@.len() ==> (#[trigger] r@[i]).from_rc.0 < 9 && r@[i].from_rc.1 < 7
                    && r@[i].dest_rc.0 < 9 && r@[i].dest_rc.1 < 7,
    {
        let mut ret: Vec<SimpleMove> = Vec::new();
        let mut i: usize = 0;
        while i < 63
            invariant
                i <= 63,
                ret@ + spec_simple_moves_from(*self, i as int) == spec_simple_moves(*self),
                forall|k: int|
                    0 <= k < ret@.len() ==> (#[trigger] ret@[k]).from_rc.0 < 9 && ret@[k].from_rc.1
                        < 7 && ret@[k].dest_rc.0 < 9 && ret@[k].dest_rc.1 < 7,
            decreases 63 - i,
        {
            let r = (i / 7) as u8;
            let c = (i % 7) as u8;
            proof {
                assert(r < 9 && c < 7) by {
                    assert(7 * (i as int / 7) <= i as int);
                };
            }
            match self.rows[r as usize][c as usize] {
                Some((pl, kind)) => {
                    if pl == self.current_player {
                        let targets = match kind {
                            PieceKind::B => self.get_bishop_moves(&pl, (r, c)),
                            PieceKind::K => self.get_king_moves(&pl, (r, c)),
                            PieceKind::N => self.get_knight_moves(&pl, (r, c)),
                            PieceKind::P => self.get_pawn_moves(&pl, (r, c)),
                            PieceKind::R => self.get_rook_moves(&pl, (r, c)),
                        };
                        let ghost pre = ret@;
                        let mut j: usize = 0;
                        while j < targets.len()
                            invariant
                                j <= targets@.len(),
                                r < 9,
                                c < 7,
                                forall|k: int|
                                    0 <= k < targets@.len() ==> (#[trigger] targets@[k]).0 < 9
                                        && targets@[k].1 < 7,
                                ret@ =~= pre + targets@.subrange(0, j as int).map_values(
                                    |t: (u8, u8)| SimpleMove { from_rc: (r, c), dest_rc: t },
                                ),
                                forall|k: int|
                                    0 <= k < ret@.len() ==> (#[trigger] ret@[k]).from_rc.0 < 9
                                        && ret@[k].from_rc.1 < 7 && ret@[k].dest_rc.0 < 9
                                        && ret@[k].dest_rc.1 < 7,
                            decreases targets@.len() - j,
                        {
                            ret.push(SimpleMove { from_rc: (r, c), dest_rc: targets[j] });
                            proof {
                                assert(ret@ =~= pre + targets@.subrange(0, j as int + 1).map_values(
                                    |t: (u8, u8)| SimpleMove { from_rc: (r, c), dest_rc: t },
                                ));
                            }
                            j = j + 1;
                        }
                        proof {
                            assert(targets@.subrange(0, targets@.len() as int) =~= targets@);
                            assert(ret@ =~= pre + spec_square_moves(*self, i as int));
                            assert((pre + spec_square_moves(*self, i as int))
                                + spec_simple_moves_from(*self, i as int + 1) =~= pre + (
                            spec_square_moves(*self, i as int) + spec_simple_moves_from(
                                *self,
                                i as int + 1,
                            )));
                        }
                    } else {
                        proof {
                            assert(spec_square_moves(*self, i as int) =~= Seq::<
                                SimpleMove,
                            >::empty());
                            assert(ret@ + spec_square_moves(*self, i as int) =~= ret@);
                        }
                    }
                },
                None => {
                    proof {
                        assert(spec_square_moves(*self, i as int) =~= Seq::<SimpleMove>::empty());
                        assert(ret@ + spec_square_moves(*self, i as int) =~= ret@);
                    }
                },
            }
            i = i + 1;
        }
        ret
    }

    fn has_any_king(&self) -> (r: bool)
        ensures
            r == spec_any_king(*self),
    {
        let mut rr: usize = 0;
        while rr < 9
            invariant
                rr <= 9,
                forall|r2: int, c2: int|
                    0 <= r2 < rr && 0 <= c2 < 7 ==> !((#[trigger] sq(*self, r2, c2)) matches Some(
                        (_, PieceKind::K),
                    )),
            decreases 9 - rr,
        {
            let mut cc: usize = 0;
            while cc < 7
                invariant
                    rr < 9,
                    cc <= 7,
                    forall|r2: int, c2: int|
                        0 <= r2 < rr && 0 <= c2 < 7 ==> !((#[trigger] sq(*self, r2, c2)) matches
                        Some((_, PieceKind::K))),
                    forall|c2: int|
                        0 <= c2 < cc ==> !((#[trigger] sq(*self, rr as int, c2)) matches Some(
                            (_, PieceKind::K),
                        )),
                decreases 7 - cc,
            {
                match self.rows[rr][cc] {
                    Some((_, PieceKind::K)) => {
                        proof {
                            assert((sq(*self, rr as int, cc as int)) matches Some(
                                (_, PieceKind::K),
                            ));
                        }
                        return true;
                    },
                    _ => {},
                }
                cc = cc + 1;
            }
            rr = rr + 1;
        }
        proof {
            assert(!spec_any_king(*self)) by {
                assert forall|r2: int, c2: int|
                    0 <= r2 < 9 && 0 <= c2 < 7 implies !((#[trigger] sq(*self, r2, c2)) matches
                Some((_, PieceKind::K))) by {}
            }
        }
        false
    }

    fn has_king_of(&self, pl: Player) -> (r: bool)
        ensures
            r == spec_has_king(*self, pl),
    {
        let mut rr: usize = 0;
        while rr < 9
            invariant
                rr <= 9,
                forall|r2: int, c2: int|
                    0 <= r2 < rr && 0 <= c2 < 7 ==> #[trigger] sq(*self, r2, c2) != Some(
                        (pl, PieceKind::K),
                    ),
            decreases 9 - rr,
        {
            let mut cc: usize = 0;
            while cc < 7
                invariant
                    rr < 9,
                    cc <= 7,
                    forall|r2: int, c2: int|
                        0 <= r2 < rr && 0 <= c2 < 7 ==> #[trigger] sq(*self, r2, c2) != Some(
                            (pl, PieceKind::K),
                        ),
                    forall|c2: int|
                        0 <= c2 < cc ==> #[trigger] sq(*self, rr as int, c2) != Some(
                            (pl, PieceKind::K),
                        ),
                decreases 7 - cc,
            {
                match self.rows[rr][cc] {
                    Some((p2, PieceKind::K)) => {
                        if p2 == pl {
                            proof {
                                assert(sq(*self, rr as int, cc as int) == Some(
                                    (pl, PieceKind::K),
                                ));
                            }
                            return true;
                        }
                    },
                    _ => {},
                }
                cc = cc + 1;
            }
            rr = rr + 1;
        }
        proof {
            assert(!spec_has_king(*self, pl)) by {
                assert forall|r2: int, c2: int|
                    0 <= r2 < 9 && 0 <= c2 < 7 implies #[trigger] sq(*self, r2, c2) != Some(
                    (pl, PieceKind::K),
                ) by {}
            }
        }
        false
    }

    /// Reports the decided winner, if any.
    pub fn get_winner(&self) -> (r: Option<Player>)
        ensures
            r == spec_simple_winner(*self),
    {
        if !self.has_any_king() {
            return Some(self.current_player);
        }
        if !self.has_king_of(Player::PlayerOne) {
            return Some(Player::PlayerTwo);
        }
        if !self.has_king_of(Player::PlayerTwo) {
            return Some(Player::PlayerOne);
        }
        let moves = self.get_moves();
        if moves.len() == 0 {
            return Some(self.current_player.other());
        }
        None
    }

    /// Applies a move in place. A from == dest move explodes: it empties
    /// the origin square and its existing neighbors, of either owner and
    /// any kind. Any other move relocates the origin's piece onto the
    /// destination, capturing whatever stood there. The side to move flips
    /// either way.
    pub fn do_move(&mut self, mov: &SimpleMove)
        requires
            mov.from_rc.0 < 9,
            mov.from_rc.1 < 7,
            mov.dest_rc.0 < 9,
            mov.dest_rc.1 < 7,
        ensures
            final(self).current_player == spec_other(old(self).current_player),
            mov.from_rc == mov.dest_rc ==> forall|r2: int, c2: int|
                0 <= r2 < 9 && 0 <= c2 < 7 ==> #[trigger] sq(*final(self), r2, c2) == (
                if crate::board::spec_adjacent(
                    r2,
                    c2,
                    mov.from_rc.0 as int,
                    mov.from_rc.1 as int,
                ) {
                    None
                } else {
                    sq(*old(self), r2, c2)
                }),
            mov.from_rc != mov.dest_rc ==> {
                &&& sq(*final(self), mov.dest_rc.0 as int, mov.dest_rc.1 as int) == sq(
                    *old(self),
                    mov.from_rc.0 as int,
                    mov.from_rc.1 as int,
                )
                &&& sq(*final(self), mov.from_rc.0 as int, mov.from_rc.1 as int) is None
                &&& forall|r2: int, c2: int|
                    0 <= r2 < 9 && 0 <= c2 < 7 && !(r2 == mov.from_rc.0 as int && c2
                        == mov.from_rc.1 as int) && !(r2 == mov.dest_rc.0 as int && c2
                        == mov.dest_rc.1 as int) ==> #[trigger] sq(*final(self), r2, c2) == sq(
                        *old(self),
                        r2,
                        c2,
                    )
            },
    {
        if mov.from_rc.0 == mov.dest_rc.0 && mov.from_rc.1 == mov.dest_rc.1 {
            let ghost before = *self;
            let fr = mov.from_rc.0;
            let fc = mov.from_rc.1;
            self.current_player = self.current_player.other();
            let mut r2: usize = 0;
            while r2 < 9
                invariant
                    r2 <= 9,
                    fr == mov.from_rc.0,
                    fc == mov.from_rc.1,
                    fr < 9,
                    fc < 7,
                    self.current_player == spec_other(before.current_player),
                    forall|ri: int, ci: int|
                        0 <= ri < r2 && 0 <= ci < 7 ==> #[trigger] sq(*self, ri, ci) == (
                        if crate::board::spec_adjacent(ri, ci, fr as int, fc as int) {
                            None
                        } else {
                            sq(before, ri, ci)
                        }),
                    forall|ri: int, ci: int|
                        r2 <= ri < 9 && 0 <= ci < 7 ==> #[trigger] sq(*self, ri, ci) == sq(
                            before,
                            ri,
                            ci,
                        ),
                decreases 9 - r2,
            {
                let mut rowv = self.rows[r2];
                proof {
                    assert(rowv == self.rows@[r2 as int]);
                    assert forall|ci: int| 0 <= ci < 7 implies rowv@[ci] == sq(
                        before,
                        r2 as int,
                        ci,
                    ) by {
                        assert(sq(*self, r2 as int, ci) == sq(before, r2 as int, ci));
                    }
                }
                let mut c2: usize = 0;
                while c2 < 7
                    invariant
                        r2 < 9,
                        c2 <= 7,
                        fr < 9,
                        fc < 7,
                        rowv@.len() == 7,
                        forall|ci: int|
                            0 <= ci < c2 ==> #[trigger] rowv@[ci] == (
                            if crate::board::spec_adjacent(r2 as int, ci, fr as int, fc as int) {
                                None
                            } else {
                                sq(before, r2 as int, ci)
                            }),
                        forall|ci: int|
                            c2 <= ci < 7 ==> #[trigger] rowv@[ci] == sq(before, r2 as int, ci),
                    decreases 7 - c2,
                {
                    let dr = r2 as i16 - fr as i16;
                    let dc = c2 as i16 - fc as i16;
                    if -1 <= dr && dr <= 1 && -1 <= dc && dc <= 1 {
                        rowv[c2] = None;
                    }
                    c2 = c2 + 1;
                }
                let ghost prev = *self;
                self.rows[r2] = rowv;
                proof {
                    assert(self.rows@ =~= prev.rows@.update(r2 as int, rowv));
                    assert forall|ri: int, ci: int|
                        0 <= ri < 9 && 0 <= ci < 7 implies #[trigger] sq(*self, ri, ci) == (
                    if ri == r2 as int {
                        rowv@[ci]
                    } else {
                        sq(prev, ri, ci)
                    }) by {}
                }
                r2 = r2 + 1;
            }
            return ;
        }
        let piece = self.rows[mov.from_rc.0 as usize][mov.from_rc.1 as usize];
        let mut rowd = self.rows[mov.dest_rc.0 as usize];
        rowd[mov.dest_rc.1 as usize] = piece;
        self.rows[mov.dest_rc.0 as usize] = rowd;
        let mut rowf = self.rows[mov.from_rc.0 as usize];
        rowf[mov.from_rc.1 as usize] = None;
        self.rows[mov.from_rc.0 as usize] = rowf;
        self.current_player = self.current_player.other();
    }
}

impl crate::board::Board<SimpleMove> for SimpleBoard {
    open spec fn board_ok(&self) -> bool {
        true
    }

    open spec fn piece_model(&self, row: int, col: int) -> Option<(Player, PieceKind)> {
        sq(*self, row, col)
    }

    open spec fn player_model(&self) -> Player {
        self.current_player
    }

    open spec fn moves_model(&self) -> Seq<SimpleMove> {
        spec_simple_moves(*self)
    }

    open spec fn winner_model(&self) -> Option<Player> {
        spec_simple_winner(*self)
    }

    fn get_piece(&self, row: u8, col: u8) -> (r: Option<(Player, PieceKind)>) {
        SimpleBoard::get_piece(self, row, col)
    }

    fn get_player(&self) -> (r: Player) {
        SimpleBoard::get_player(self)
    }

    fn get_moves(&self) -> (r: Vec<SimpleMove>) {
        SimpleBoard::get_moves(self)
    }

    fn get_winner(&self) -> (r: Option<Player>) {
        SimpleBoard::get_winner(self)
    }

    fn do_move(&mut self, mov: &SimpleMove) {
        SimpleBoard::do_move(self, mov);
    }

    fn invert(&self) -> (r: SimpleBoard) {
        let mut rows: [[Option<(Player, PieceKind)>; 7]; 9] = [[None;7];9];
        let mut r2: usize = 0;
        while r2 < 9
            invariant
                r2 <= 9,
                forall|ri: int, ci: int|
                    0 <= ri < r2 && 0 <= ci < 7 ==> #[trigger] rows@[ri]@[ci]
                        == crate::board::spec_mirror_piece(sq(*self, 8 - ri, ci)),
            decreases 9 - r2,
        {
            let mut rowv: [Option<(Player, PieceKind)>; 7] = [None;7];
            let mut c2: usize = 0;
            while c2 < 7
                invariant
                    r2 < 9,
                    c2 <= 7,
                    forall|ci: int|
                        0 <= ci < c2 ==> #[trigger] rowv@[ci] == crate::board::spec_mirror_piece(
                            sq(*self, 8 - r2 as int, ci),
                        ),
                decreases 7 - c2,
            {
                let v = match self.rows[8 - r2][c2] {
                    Some((pl, k)) => Some((pl.other(), k)),
                    None => None,
                };
                rowv[c2] = v;
                c2 = c2 + 1;
            }
            rows[r2] = rowv;
            r2 = r2 + 1;
        }
        SimpleBoard { current_player: self.current_player.other(), rows }
    }
}

/// Law: the game on the array board is undecided exactly when both kings
/// stand on it and the side to move has at least one legal move.
pub proof fn lemma_simple_winner_none_iff(b: SimpleBoard)
    ensures
        spec_simple_winner(b) is None <==> (spec_has_king(b, Player::PlayerOne) && spec_has_king(
            b,
            Player::PlayerTwo,
        ) && spec_simple_moves(b).len() > 0),
{
    if spec_has_king(b, Player::PlayerOne) {
        let (r, c) = choose|r: int, c: int|
            0 <= r < 9 && 0 <= c < 7 && #[trigger] sq(b, r, c) == Some(
                (Player::PlayerOne, PieceKind::K),
            );
        assert((sq(b, r, c)) matches Some((_, PieceKind::K)));
    }
}

} // verus!
