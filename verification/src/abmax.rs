use vstd::prelude::*;

use std::time::Instant;

use crate::bitboard::{spec_moves, spec_winner, BitBoard, BitBoardMove};
use crate::board::Player;
use crate::eval::EvalResult;
use crate::ttable::{entry_ok, entry_refines, entry_view, EntryModel, TTable};

verus! {

#[verifier::external_type_specification]
#[verifier::external_body]
pub struct ExInstant(Instant);

#[verifier::external_type_specification]
#[verifier::external_body]
#[verifier::reject_recursive_types(T)]
pub struct ExReceiver<T>(crossbeam_channel::Receiver<T>);

/// Relies on crossbeam_channel::never: a channel on which no message ever
/// arrives.
#[verifier::external_body]
fn timer_never() -> crossbeam_channel::Receiver<Instant> {
    crossbeam_channel::never()
}

/// Relies on crossbeam_channel::after: a channel that delivers one message
/// once the given number of seconds has elapsed. When the message becomes
/// ready depends on the clock, so nothing is promised of the result.
#[verifier::external_body]
fn timer_after_secs(secs: u64) -> crossbeam_channel::Receiver<Instant> {
    crossbeam_channel::after(core::time::Duration::from_secs(secs))
}

/// Relies on crossbeam_channel::Receiver::try_recv: reports, without
/// blocking, whether a message is ready. Readiness depends on the clock, so
/// nothing is promised of the result; callers handle both outcomes.
#[verifier::external_body]
fn timer_fired(rx: &crossbeam_channel::Receiver<Instant>) -> bool {
    rx.try_recv().is_ok()
}

/// One ply climbed, saturating at the ply type's ceiling.
pub open spec fn spec_bump(e: EvalResult) -> EvalResult {
    match e {
        EvalResult::FavorOne(a) => if a < 255 {
            EvalResult::FavorOne((a + 1) as u8)
        } else {
            e
        },
        EvalResult::FavorTwo(a) => if a < 255 {
            EvalResult::FavorTwo((a + 1) as u8)
        } else {
            e
        },
        EvalResult::Evaluate(_) => e,
    }
}

fn bump(e: EvalResult) -> (r: EvalResult)
    ensures
        r == spec_bump(e),
{
    match e {
        EvalResult::FavorOne(a) => if a < 255 {
            e.level_up()
        } else {
            e
        },
        EvalResult::FavorTwo(a) => if a < 255 {
            e.level_up()
        } else {
            e
        },
        EvalResult::Evaluate(_) => e,
    }
}

/// The alpha-beta search engine: an injected evaluator, a transposition
/// table scoped to this instance, and the cooperative cancellation channel
/// of the search in flight.
pub struct ABMax<F> where F: Fn(&BitBoard) -> i32 {
    eval: F,
    ttable: TTable,
    rx: crossbeam_channel::Receiver<Instant>,
}

impl<F> ABMax<F> where F: Fn(&BitBoard) -> i32 {
    pub closed spec fn wf(self) -> bool {
        self.ttable.wf()
    }

    /// The injected evaluator accepts every position.
    pub closed spec fn eval_ok(self) -> bool {
        forall|b: &BitBoard| #[trigger] call_requires(self.eval, (b,))
    }

    /// The cached line this engine's transposition table holds for a
    /// position, if any.
    pub closed spec fn table_find(self, b: BitBoard) -> Option<EntryModel> {
        self.ttable.spec_find(b)
    }

    pub fn new(eval: F) -> (r: Self)
        requires
            forall|b: &BitBoard| #[trigger] call_requires(eval, (b,)),
        ensures
            r.wf(),
            r.eval_ok(),
            forall|b: BitBoard| #[trigger] r.table_find(b) is None,
    {
        ABMax { eval, ttable: TTable::new(), rx: timer_never() }
    }

    /// One maximizing node: player one to move. Returns the node's value,
    /// or nothing if the timer fired somewhere below. This node caches a
    /// result for its position only when it returns one; whatever happens
    /// below, every cache line only ever gains depth.
    fn maxi(&mut self, board: &BitBoard, alpha: EvalResult, beta: EvalResult, plies: u8) -> (r:
        Option<EvalResult>)
        requires
            old(self).wf(),
            old(self).eval_ok(),
            board.wf(),
            board.current_player == Player::PlayerOne,
        ensures
            final(self).wf(),
            final(self).eval_ok(),
            spec_winner(*board) == Some(Player::PlayerOne) ==> (r is None || r == Some(
                EvalResult::FavorOne(0),
            )),
            spec_winner(*board) == Some(Player::PlayerTwo) ==> (r is None || r == Some(
                EvalResult::FavorTwo(0),
            )),
            (spec_winner(*board) is None && plies == 0) ==> (r is None || (r matches Some(
                EvalResult::Evaluate(v),
            ) && call_ensures(old(self).eval, (board,), v))),
            forall|b2: BitBoard|
                entry_refines(old(self).table_find(b2), #[trigger] final(self).table_find(b2)),
        decreases plies,
    {
        let ghost pre = *self;
        if timer_fired(&self.rx) {
            return None;
        }
        match board.get_winner() {
            Some(Player::PlayerOne) => {
                return Some(EvalResult::FavorOne(0));
            },
            Some(Player::PlayerTwo) => {
                return Some(EvalResult::FavorTwo(0));
            },
            None => {},
        }
        if plies == 0 {
            return Some(EvalResult::Evaluate((self.eval)(board)));
        }
        let entry = self.ttable.load(*board);
        proof {
            assert forall|b2: BitBoard|
                entry_refines(pre.table_find(b2), #[trigger] self.table_find(b2)) by {
                if b2 == *board {
                    assert(self.table_find(b2) == Some(entry_view(entry)));
                } else {
                    assert(self.table_find(b2) == pre.table_find(b2));
                }
            }
        }
        if entry.plies > plies && entry.value.is_some() {
            return entry.value;
        }
        let mut moves = entry.moves;
        let killer = entry.killer_move_index;
        let m0 = moves[0];
        let mk = moves[killer];
        moves.set(0, mk);
        moves.set(killer, m0);
        proof {
            assert forall|i: int|
                0 <= i < moves@.len() implies (#[trigger] moves@[i]).from_pos < 63
                && moves@[i].dest_pos < 63 by {
                assert(spec_moves(*board)[i].from_pos < 63 && spec_moves(*board)[i].dest_pos < 63);
                assert(spec_moves(*board)[0].from_pos < 63 && spec_moves(*board)[0].dest_pos < 63);
                assert(spec_moves(*board)[killer as int].from_pos < 63 && spec_moves(
                    *board,
                )[killer as int].dest_pos < 63);
            }
        }
        let mut best_idx: usize = 0;
        let mut best_val = EvalResult::FavorTwo(0);
        let mut a = alpha;
        let mut idx: usize = 0;
        while idx < moves.len()
            invariant
                idx <= moves@.len(),
                moves@.len() == spec_moves(*board).len(),
                best_idx < moves@.len(),
                forall|i: int|
                    0 <= i < moves@.len() ==> (#[trigger] moves@[i]).from_pos < 63
                        && moves@[i].dest_pos < 63,
                self.wf(),
                self.eval_ok(),
                board.wf(),
                board.current_player == Player::PlayerOne,
                plies >= 1,
                pre == *old(self),
                forall|b2: BitBoard|
                    entry_refines(pre.table_find(b2), #[trigger] self.table_find(b2)),
            ensures
                best_idx < moves@.len(),
                moves@.len() == spec_moves(*board).len(),
                self.wf(),
                self.eval_ok(),
                forall|b2: BitBoard|
                    entry_refines(pre.table_find(b2), #[trigger] self.table_find(b2)),
            decreases moves@.len() - idx,
        {
            let m = moves[idx];
            let ghost head = *self;
            let mut board2 = *board;
            board2.do_move(&m);
            match self.mini(&board2, a, beta, plies - 1) {
                Some(x) => {
                    let here = bump(x);
                    if here > best_val {
                        best_idx = idx;
                        best_val = here;
                    }
                    proof {
                        assert forall|b2: BitBoard|
                            entry_refines(pre.table_find(b2), #[trigger] self.table_find(b2)) by {
                            assert(entry_refines(pre.table_find(b2), head.table_find(b2)));
                            assert(entry_refines(head.table_find(b2), self.table_find(b2)));
                        }
                    }
                },
                None => {
                    proof {
                        assert forall|b2: BitBoard|
                            entry_refines(pre.table_find(b2), #[trigger] self.table_find(b2)) by {
                            assert(entry_refines(pre.table_find(b2), head.table_find(b2)));
                            assert(entry_refines(head.table_find(b2), self.table_find(b2)));
                        }
                    }
                    return None;
                },
            }
            if a < best_val {
                a = best_val;
            }
            if best_val >= beta {
                break ;
            }
            idx = idx + 1;
        }
        let ghost mid = *self;
        self.ttable.write(*board, plies, best_val, best_idx);
        proof {
            assert forall|b2: BitBoard|
                entry_refines(pre.table_find(b2), #[trigger] self.table_find(b2)) by {
                assert(entry_refines(pre.table_find(b2), mid.table_find(b2)));
                assert(entry_refines(mid.table_find(b2), self.table_find(b2)));
            }
        }
        Some(best_val)
    }

    /// One minimizing node: player two to move. Returns the node's value,
    /// or nothing if the timer fired somewhere below; mirror of the
    /// maximizing node.
    fn mini(&mut self, board: &BitBoard, alpha: EvalResult, beta: EvalResult, plies: u8) -> (r:
        Option<EvalResult>)
        requires
            old(self).wf(),
            old(self).eval_ok(),
            board.wf(),
            board.current_player == Player::PlayerTwo,
        ensures
            final(self).wf(),
            final(self).eval_ok(),
            spec_winner(*board) == Some(Player::PlayerOne) ==> (r is None || r == Some(
                EvalResult::FavorOne(0),
            )),
            spec_winner(*board) == Some(Player::PlayerTwo) ==> (r is None || r == Some(
                EvalResult::FavorTwo(0),
            )),
            (spec_winner(*board) is None && plies == 0) ==> (r is None || (r matches Some(
                EvalResult::Evaluate(v),
            ) && call_ensures(old(self).eval, (board,), v))),
            forall|b2: BitBoard|
                entry_refines(old(self).table_find(b2), #[trigger] final(self).table_find(b2)),
        decreases plies,
    {
        let ghost pre = *self;
        if timer_fired(&self.rx) {
            return None;
        }
        match board.get_winner() {
            Some(Player::PlayerOne) => {
                return Some(EvalResult::FavorOne(0));
            },
            Some(Player::PlayerTwo) => {
                return Some(EvalResult::FavorTwo(0));
            },
            None => {},
        }
        if plies == 0 {
            return Some(EvalResult::Evaluate((self.eval)(board)));
        }
        let entry = self.ttable.load(*board);
        proof {
            assert forall|b2: BitBoard|
                entry_refines(pre.table_find(b2), #[trigger] self.table_find(b2)) by {
                if b2 == *board {
                    assert(self.table_find(b2) == Some(entry_view(entry)));
                } else {
                    assert(self.table_find(b2) == pre.table_find(b2));
                }
            }
        }
        if entry.plies > plies && entry.value.is_some() {
            return entry.value;
        }
        let mut moves = entry.moves;
        let killer = entry.killer_move_index;
        let m0 = moves[0];
        let mk = moves[killer];
        moves.set(0, mk);
        moves.set(killer, m0);
        proof {
            assert forall|i: int|
                0 <= i < moves@.len() implies (#[trigger] moves@[i]).from_pos < 63
                && moves@[i].dest_pos < 63 by {
                assert(spec_moves(*board)[i].from_pos < 63 && spec_moves(*board)[i].dest_pos < 63);
                assert(spec_moves(*board)[0].from_pos < 63 && spec_moves(*board)[0].dest_pos < 63);
                assert(spec_moves(*board)[killer as int].from_pos < 63 && spec_moves(
                    *board,
                )[killer as int].dest_pos < 63);
            }
        }
        let mut best_idx: usize = 0;
        let mut best_val = EvalResult::FavorOne(0);
        let mut b = beta;
        let mut idx: usize = 0;
        while idx < moves.len()
            invariant
                idx <= moves@.len(),
                moves@.len() == spec_moves(*board).len(),
                best_idx < moves@.len(),
                forall|i: int|
                    0 <= i < moves@.len() ==> (#[trigger] moves@[i]).from_pos < 63
                        && moves@[i].dest_pos < 63,
                self.wf(),
                self.eval_ok(),
                board.wf(),
                board.current_player == Player::PlayerTwo,
                plies >= 1,
                pre == *old(self),
                forall|b2: BitBoard|
                    entry_refines(pre.table_find(b2), #[trigger] self.table_find(b2)),
            ensures
                best_idx < moves@.len(),
                moves@.len() == spec_moves(*board).len(),
                self.wf(),
                self.eval_ok(),
                forall|b2: BitBoard|
                    entry_refines(pre.table_find(b2), #[trigger] self.table_find(b2)),
            decreases moves@.len() - idx,
        {
            let m = moves[idx];
            let ghost head = *self;
            let mut board2 = *board;
            board2.do_move(&m);
            match self.maxi(&board2, alpha, b, plies - 1) {
                Some(x) => {
                    let here = bump(x);
                    if here < best_val {
                        best_idx = idx;
                        best_val = here;
                    }
                    proof {
                        assert forall|b2: BitBoard|
                            entry_refines(pre.table_find(b2), #[trigger] self.table_find(b2)) by {
                            assert(entry_refines(pre.table_find(b2), head.table_find(b2)));
                            assert(entry_refines(head.table_find(b2), self.table_find(b2)));
                        }
                    }
                },
                None => {
                    proof {
                        assert forall|b2: BitBoard|
                            entry_refines(pre.table_find(b2), #[trigger] self.table_find(b2)) by {
                            assert(entry_refines(pre.table_find(b2), head.table_find(b2)));
                            assert(entry_refines(head.table_find(b2), self.table_find(b2)));
                        }
                    }
                    return None;
                },
            }
            if best_val < b {
                b = best_val;
            }
            if best_val <= alpha {
                break ;
            }
            idx = idx + 1;
        }
        let ghost mid = *self;
        self.ttable.write(*board, plies, best_val, best_idx);
        proof {
            assert forall|b2: BitBoard|
                entry_refines(pre.table_find(b2), #[trigger] self.table_find(b2)) by {
                assert(entry_refines(pre.table_find(b2), mid.table_find(b2)));
                assert(entry_refines(mid.table_find(b2), self.table_find(b2)));
            }
        }
        Some(best_val)
    }

    /// A fixed-depth search: the engine's move and its forecast, or nothing
    /// if the timer fired before the depth completed. The chosen move is
    /// drawn from the position's own legal move list. The position must not
    /// already be decided.
    pub fn choose_best(&mut self, board: &BitBoard, plies: u8) -> (r: Option<
        (BitBoardMove, EvalResult),
    >)
        requires
            old(self).wf(),
            old(self).eval_ok(),
            board.wf(),
            spec_winner(*board) is None,
            plies >= 1,
        ensures
            final(self).wf(),
            final(self).eval_ok(),
            r matches Some(p) ==> spec_moves(*board).contains(p.0),
            forall|b2: BitBoard|
                entry_refines(old(self).table_find(b2), #[trigger] final(self).table_find(b2)),
    {
        let ghost pre = *self;
        let moves = board.get_moves();
        match board.get_player() {
            Player::PlayerOne => {
                let mut results: Vec<(BitBoardMove, EvalResult)> = Vec::new();
                let mut i: usize = 0;
                while i < moves.len()
                    invariant
                        i <= moves@.len(),
                        results@.len() == i,
                        moves@ == spec_moves(*board),
                        forall|j: int|
                            0 <= j < moves@.len() ==> (#[trigger] moves@[j]).from_pos < 63
                                && moves@[j].dest_pos < 63,
                        forall|j: int|
                            0 <= j < results@.len() ==> spec_moves(*board).contains(
                                (#[trigger] results@[j]).0,
                            ),
                        self.wf(),
                        self.eval_ok(),
                        board.wf(),
                        board.current_player == Player::PlayerOne,
                        plies >= 1,
                        pre == *old(self),
                        forall|b2: BitBoard|
                            entry_refines(pre.table_find(b2), #[trigger] self.table_find(b2)),
                    decreases moves@.len() - i,
                {
                    let m = moves[i];
                    let ghost head = *self;
                    let mut board2 = *board;
                    board2.do_move(&m);
                    let child = self.mini(&board2, EvalResult::FavorTwo(0), EvalResult::FavorOne(0), plies
                        - 1);
                    proof {
                        assert forall|b2: BitBoard|
                            entry_refines(pre.table_find(b2), #[trigger] self.table_find(b2)) by {
                            assert(entry_refines(pre.table_find(b2), head.table_find(b2)));
                            assert(entry_refines(head.table_find(b2), self.table_find(b2)));
                        }
                    }
                    match child {
                        Some(x) => {
                            proof {
                                assert(spec_moves(*board)[i as int] == m);
                            }
                            results.push((m, x));
                        },
                        None => {
                            return None;
                        },
                    }
                    i = i + 1;
                }
                let mut best = results[0];
                let mut j: usize = 1;
                while j < results.len()
                    invariant
                        1 <= j <= results@.len(),
                        spec_moves(*board).contains(best.0),
                        forall|k: int|
                            0 <= k < results@.len() ==> spec_moves(*board).contains(
                                (#[trigger] results@[k]).0,
                            ),
                    decreases results@.len() - j,
                {
                    let cand = results[j];
                    if cand.1 >= best.1 {
                        best = cand;
                    }
                    j = j + 1;
                }
                Some(best)
            },
            Player::PlayerTwo => {
                let mut results: Vec<(BitBoardMove, EvalResult)> = Vec::new();
                let mut i: usize = 0;
                while i < moves.len()
                    invariant
                        i <= moves@.len(),
                        results@.len() == i,
                        moves@ == spec_moves(*board),
                        forall|j: int|
                            0 <= j < moves@.len() ==> (#[trigger] moves@[j]).from_pos < 63
                                && moves@[j].dest_pos < 63,
                        forall|j: int|
                            0 <= j < results@.len() ==> spec_moves(*board).contains(
                                (#[trigger] results@[j]).0,
                            ),
                        self.wf(),
                        self.eval_ok(),
                        board.wf(),
                        board.current_player == Player::PlayerTwo,
                        plies >= 1,
                        pre == *old(self),
                        forall|b2: BitBoard|
                            entry_refines(pre.table_find(b2), #[trigger] self.table_find(b2)),
                    decreases moves@.len() - i,
                {
                    let m = moves[i];
                    let ghost head = *self;
                    let mut board2 = *board;
                    board2.do_move(&m);
                    let child = self.maxi(&board2, EvalResult::FavorTwo(0), EvalResult::FavorOne(0), plies
                        - 1);
                    proof {
                        assert forall|b2: BitBoard|
                            entry_refines(pre.table_find(b2), #[trigger] self.table_find(b2)) by {
                            assert(entry_refines(pre.table_find(b2), head.table_find(b2)));
                            assert(entry_refines(head.table_find(b2), self.table_find(b2)));
                        }
                    }
                    match child {
                        Some(x) => {
                            proof {
                                assert(spec_moves(*board)[i as int] == m);
                            }
                            results.push((m, x));
                        },
                        None => {
                            return None;
                        },
                    }
                    i = i + 1;
                }
                let mut best = results[0];
                let mut j: usize = 1;
                while j < results.len()
                    invariant
                        1 <= j <= results@.len(),
                        spec_moves(*board).contains(best.0),
                        forall|k: int|
                            0 <= k < results@.len() ==> spec_moves(*board).contains(
                                (#[trigger] results@[k]).0,
                            ),
                    decreases results@.len() - j,
                {
                    let cand = results[j];
                    if cand.1 < best.1 {
                        best = cand;
                    }
                    j = j + 1;
                }
                Some(best)
            },
        }
    }

    /// The iterative deepening driver: fixed-depth searches from three plies
    /// upward under a five-second budget, keeping the most recently
    /// completed result. Deepening stops once a completed depth proves a
    /// forced outcome, once the budget runs out (the depth in progress is
    /// abandoned), or at the depth type's ceiling. Returns nothing only if
    /// no depth completed within the budget. The position must not already
    /// be decided.
    pub fn choose_best_iterdeep(&mut self, board: &BitBoard) -> (r: Option<
        (BitBoardMove, EvalResult),
    >)
        requires
            old(self).wf(),
            old(self).eval_ok(),
            board.wf(),
            spec_winner(*board) is None,
        ensures
            final(self).wf(),
            final(self).eval_ok(),
            r matches Some(p) ==> spec_moves(*board).contains(p.0),
            forall|b2: BitBoard|
                entry_refines(old(self).table_find(b2), #[trigger] final(self).table_find(b2)),
    {
        let ghost pre = *self;
        self.rx = timer_after_secs(5);
        let mut best: Option<(BitBoardMove, EvalResult)> = None;
        let mut depth: u8 = 3;
        loop
            invariant
                self.wf(),
                self.eval_ok(),
                board.wf(),
                spec_winner(*board) is None,
                depth >= 1,
                best matches Some(p) ==> spec_moves(*board).contains(p.0),
                pre == *old(self),
                forall|b2: BitBoard|
                    entry_refines(pre.table_find(b2), #[trigger] self.table_find(b2)),
            ensures
                self.wf(),
                self.eval_ok(),
                best matches Some(p) ==> spec_moves(*board).contains(p.0),
                forall|b2: BitBoard|
                    entry_refines(pre.table_find(b2), #[trigger] self.table_find(b2)),
            decreases 255 - depth,
        {
            let ghost head = *self;
            let attempt = self.choose_best(board, depth);
            proof {
                assert forall|b2: BitBoard|
                    entry_refines(pre.table_find(b2), #[trigger] self.table_find(b2)) by {
                    assert(entry_refines(pre.table_find(b2), head.table_find(b2)));
                    assert(entry_refines(head.table_find(b2), self.table_find(b2)));
                }
            }
            match attempt {
                Some(x) => {
                    best = Some(x);
                    match x.1 {
                        EvalResult::Evaluate(_) => {},
                        _ => {
                            break ;
                        },
                    }
                },
                None => {
                    break ;
                },
            }
            if depth == 255 {
                break ;
            }
            depth = depth + 1;
        }
        best
    }
}

} // verus!
