use vstd::prelude::*;

use crate::board::Player;
use crate::eval::EvalResult;
use crate::simple::{spec_simple_moves, spec_simple_winner, SimpleBoard, SimpleMove};

verus! {

/// The plain minimax engine over the array board: no pruning, no cache, no
/// clock; an injected evaluator scores the leaves.
pub struct MiniMax<F> where F: Fn(&SimpleBoard) -> i32 {
    pub eval: F,
}

/// The result's forced-outcome distance, or zero for a heuristic score.
pub open spec fn spec_distance(e: EvalResult) -> int {
    match e {
        EvalResult::FavorOne(k) => k as int,
        EvalResult::FavorTwo(k) => k as int,
        EvalResult::Evaluate(_) => 0,
    }
}

impl<F> MiniMax<F> where F: Fn(&SimpleBoard) -> i32 {
    /// The injected evaluator accepts every position.
    pub closed spec fn eval_ok(self) -> bool {
        forall|b: &SimpleBoard| #[trigger] call_requires(self.eval, (b,))
    }

    /// The engine's move and its forecast at the given fixed depth. The
    /// move is drawn from the position's own legal move list. The position
    /// must not already be decided.
    pub fn choose_best(&self, board: &SimpleBoard, plies: u8) -> (r: (SimpleMove, EvalResult))
        requires
            self.eval_ok(),
            spec_simple_winner(*board) is None,
        ensures
            spec_simple_moves(*board).contains(r.0),
    {
        let moves = board.get_moves();
        match board.get_player() {
            Player::PlayerOne => {
                let m0 = moves[0];
                let mut board0 = *board;
                board0.do_move(&m0);
                let mut best: (SimpleMove, EvalResult) = (m0, self.mini(&board0, plies));
                proof {
                    assert(spec_simple_moves(*board).contains(moves@[0]));
                }
                let mut i: usize = 1;
                while i < moves.len()
                    invariant
                        1 <= i <= moves@.len(),
                        moves@ == spec_simple_moves(*board),
                        spec_simple_moves(*board).contains(best.0),
                        forall|j: int|
                            0 <= j < moves@.len() ==> (#[trigger] moves@[j]).from_rc.0 < 9
                                && moves@[j].from_rc.1 < 7 && moves@[j].dest_rc.0 < 9
                                && moves@[j].dest_rc.1 < 7,
                        self.eval_ok(),
                    decreases moves@.len() - i,
                {
                    let m = moves[i];
                    let mut board2 = *board;
                    board2.do_move(&m);
                    let e = self.mini(&board2, plies);
                    if e >= best.1 {
                        proof {
                            assert(spec_simple_moves(*board).contains(moves@[i as int]));
                        }
                        best = (m, e);
                    }
                    i = i + 1;
                }
                best
            },
            Player::PlayerTwo => {
                let m0 = moves[0];
                let mut board0 = *board;
                board0.do_move(&m0);
                let mut best: (SimpleMove, EvalResult) = (m0, self.maxi(&board0, plies));
                proof {
                    assert(spec_simple_moves(*board).contains(moves@[0]));
                }
                let mut i: usize = 1;
                while i < moves.len()
                    invariant
                        1 <= i <= moves@.len(),
                        moves@ == spec_simple_moves(*board),
                        spec_simple_moves(*board).contains(best.0),
                        forall|j: int|
                            0 <= j < moves@.len() ==> (#[trigger] moves@[j]).from_rc.0 < 9
                                && moves@[j].from_rc.1 < 7 && moves@[j].dest_rc.0 < 9
                                && moves@[j].dest_rc.1 < 7,
                        self.eval_ok(),
                    decreases moves@.len() - i,
                {
                    let m = moves[i];
                    let mut board2 = *board;
                    board2.do_move(&m);
                    let e = self.maxi(&board2, plies);
                    if e < best.1 {
                        proof {
                            assert(spec_simple_moves(*board).contains(moves@[i as int]));
                        }
                        best = (m, e);
                    }
                    i = i + 1;
                }
                best
            },
        }
    }

    /// The maximizing side's value of the position at the given depth: the
    /// terminal outcome on a decided position, the evaluator's score at
    /// depth zero, and otherwise the maximum over the children's values.
    fn maxi(&self, board: &SimpleBoard, plies: u8) -> (r: EvalResult)
        requires
            self.eval_ok(),
        ensures
            spec_distance(r) <= plies,
            spec_simple_winner(*board) == Some(Player::PlayerOne) ==> r == EvalResult::FavorOne(0),
            spec_simple_winner(*board) == Some(Player::PlayerTwo) ==> r == EvalResult::FavorTwo(0),
            (spec_simple_winner(*board) is None && plies == 0) ==> (r matches
            EvalResult::Evaluate(v) && call_ensures(self.eval, (board,), v)),
        decreases plies, 1int,
    {
        match board.get_winner() {
            Some(Player::PlayerOne) => {
                return EvalResult::FavorOne(0);
            },
            Some(Player::PlayerTwo) => {
                return EvalResult::FavorTwo(0);
            },
            None => {},
        }
        if plies == 0 {
            return EvalResult::Evaluate((self.eval)(board));
        }
        let moves = board.get_moves();
        let m0 = moves[0];
        let mut board0 = *board;
        board0.do_move(&m0);
        let mut best = self.mini(&board0, plies - 1).level_up();
        let mut i: usize = 1;
        while i < moves.len()
            invariant
                1 <= i <= moves@.len(),
                spec_distance(best) <= plies,
                forall|j: int|
                    0 <= j < moves@.len() ==> (#[trigger] moves@[j]).from_rc.0 < 9
                        && moves@[j].from_rc.1 < 7 && moves@[j].dest_rc.0 < 9 && moves@[j].dest_rc.1
                        < 7,
                self.eval_ok(),
                plies >= 1,
            decreases moves@.len() - i,
        {
            let m = moves[i];
            let mut board2 = *board;
            board2.do_move(&m);
            let e = self.mini(&board2, plies - 1).level_up();
            if e >= best {
                best = e;
            }
            i = i + 1;
        }
        best
    }

    /// The minimizing side's value of the position at the given depth: the
    /// terminal outcome on a decided position, the evaluator's score at
    /// depth zero, and otherwise the minimum over the children's values.
    fn mini(&self, board: &SimpleBoard, plies: u8) -> (r: EvalResult)
        requires
            self.eval_ok(),
        ensures
            spec_distance(r) <= plies,
            spec_simple_winner(*board) == Some(Player::PlayerOne) ==> r == EvalResult::FavorOne(0),
            spec_simple_winner(*board) == Some(Player::PlayerTwo) ==> r == EvalResult::FavorTwo(0),
            (spec_simple_winner(*board) is None && plies == 0) ==> (r matches
            EvalResult::Evaluate(v) && call_ensures(self.eval, (board,), v)),
        decreases plies, 0int,
    {
        match board.get_winner() {
            Some(Player::PlayerOne) => {
                return EvalResult::FavorOne(0);
            },
            Some(Player::PlayerTwo) => {
                return EvalResult::FavorTwo(0);
            },
            None => {},
        }
        if plies == 0 {
            return EvalResult::Evaluate((self.eval)(board));
        }
        let moves = board.get_moves();
        let m0 = moves[0];
        let mut board0 = *board;
        board0.do_move(&m0);
        let mut best = self.maxi(&board0, plies - 1).level_up();
        let mut i: usize = 1;
        while i < moves.len()
            invariant
                1 <= i <= moves@.len(),
                spec_distance(best) <= plies,
                forall|j: int|
                    0 <= j < moves@.len() ==> (#[trigger] moves@[j]).from_rc.0 < 9
                        && moves@[j].from_rc.1 < 7 && moves@[j].dest_rc.0 < 9 && moves@[j].dest_rc.1
                        < 7,
                self.eval_ok(),
                plies >= 1,
            decreases moves@.len() - i,
        {
            let m = moves[i];
            let mut board2 = *board;
            board2.do_move(&m);
            let e = self.maxi(&board2, plies - 1).level_up();
            if e < best {
                best = e;
            }
            i = i + 1;
        }
        best
    }
}

} // verus!
