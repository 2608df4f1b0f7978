use vstd::prelude::*;

use crate::bitboard::{
    spec_do_move, spec_init, spec_moves, spec_notation, BitBoard, BitBoardMove,
};

verus! {

/// The first move in `s` whose token equals `tok`.
pub open spec fn spec_find_move(s: Seq<BitBoardMove>, tok: Seq<char>) -> Option<BitBoardMove>
    decreases s.len(),
{
    if s.len() == 0 {
        None
    } else if spec_notation(s[0]) == tok {
        Some(s[0])
    } else {
        spec_find_move(s.drop_first(), tok)
    }
}

/// Replaying tokens `i..` from position `b`: the final position on success,
/// or the index of the first token that names no legal move.
pub open spec fn spec_replay_from(b: BitBoard, toks: Seq<Seq<char>>, i: int) -> Result<
    BitBoard,
    int,
>
    decreases toks.len() - i,
{
    if i < 0 || i >= toks.len() {
        Ok(b)
    } else {
        match spec_find_move(spec_moves(b), toks[i]) {
            None => Err(i),
            Some(m) => spec_replay_from(spec_do_move(b, m), toks, i + 1),
        }
    }
}

/// The token views of a list of strings.
pub open spec fn spec_tokens(ms: Seq<String>) -> Seq<Seq<char>> {
    ms.map_values(|s: String| s@)
}

/// Looks up the move named by `tok` among `ms`, first match wins.
fn find_move(ms: &Vec<BitBoardMove>, tok: &String) -> (r: Option<BitBoardMove>)
    requires
        forall|i: int|
            0 <= i < ms@.len() ==> (#[trigger] ms@[i]).from_pos < 63 && ms@[i].dest_pos < 63,
    ensures
        r == spec_find_move(ms@, tok@),
        r matches Some(m) ==> m.from_pos < 63 && m.dest_pos < 63,
{
    let mut j: usize = 0;
    proof {
        assert(ms@.skip(0) =~= ms@);
    }
    while j < ms.len()
        invariant
            j <= ms@.len(),
            forall|i: int|
                0 <= i < ms@.len() ==> (#[trigger] ms@[i]).from_pos < 63 && ms@[i].dest_pos < 63,
            spec_find_move(ms@, tok@) == spec_find_move(ms@.skip(j as int), tok@),
        decreases ms@.len() - j,
    {
        let m = ms[j];
        let nota = m.notation();
        proof {
            assert(ms@.skip(j as int).len() > 0);
            assert(ms@.skip(j as int)[0] == ms@[j as int]);
            assert(ms@.skip(j as int).drop_first() =~= ms@.skip(j as int + 1));
        }
        if nota.eq(tok) {
            return Some(m);
        }
        j = j + 1;
    }
    proof {
        assert(ms@.skip(ms@.len() as int).len() == 0);
    }
    None
}

/// Replays a space-free move-token list from the fixed initial layout. Each
/// token must name a move that `get_moves` offers in the position reached so
/// far; the 0-based index of the first token that does not is the error.
pub fn play_board_moves(moves: &Vec<String>) -> (r: Result<BitBoard, usize>)
    ensures
        match r {
            Ok(b) => spec_replay_from(spec_init(), spec_tokens(moves@), 0) == Ok::<BitBoard, int>(
                b,
            ) && b.wf(),
            Err(i) => spec_replay_from(spec_init(), spec_tokens(moves@), 0) == Err::<
                BitBoard,
                int,
            >(i as int),
        },
{
    let ghost toks = spec_tokens(moves@);
    let mut board = BitBoard::init();
    let mut idx: usize = 0;
    while idx < moves.len()
        invariant
            idx <= moves@.len(),
            board.wf(),
            toks == spec_tokens(moves@),
            spec_replay_from(spec_init(), toks, 0) == spec_replay_from(board, toks, idx as int),
        decreases moves@.len() - idx,
    {
        let ms = board.get_moves();
        let tok = &moves[idx];
        proof {
            assert(toks[idx as int] == moves@[idx as int]@);
        }
        match find_move(&ms, tok) {
            Some(m) => {
                board.do_move(&m);
            },
            None => {
                return Err(idx);
            },
        }
        idx = idx + 1;
    }
    Ok(board)
}

} // verus!
