use vstd::prelude::*;

use core::cmp::Ordering;
use vstd::std_specs::cmp::PartialOrdSpec;

verus! {

/// A search outcome: a forced win for player one at a ply distance, a
/// heuristic score, or a forced win for player two at a ply distance.
#[derive(Clone, Copy, PartialEq, Eq, Structural, Debug)]
pub enum EvalResult {
    FavorOne(u8),
    Evaluate(i32),
    FavorTwo(u8),
}

/// An order embedding for search outcomes. Any player-one forced win ranks
/// above any heuristic score, which ranks above any player-two forced win;
/// among player-one wins a smaller ply distance ranks higher, among
/// player-two wins a smaller ply distance ranks lower; heuristic scores
/// compare by signed value.
pub open spec fn spec_rank(e: EvalResult) -> int {
    match e {
        EvalResult::FavorTwo(a) => a as int,
        EvalResult::Evaluate(v) => 0x100 + (v as int) + 0x8000_0000,
        EvalResult::FavorOne(a) => 0x1_0000_0100 + (255 - a as int),
    }
}

/// A forced outcome moved one ply farther away; heuristic scores pass
/// through unchanged.
pub open spec fn spec_level_up(e: EvalResult) -> EvalResult {
    match e {
        EvalResult::FavorOne(a) => EvalResult::FavorOne((a + 1) as u8),
        EvalResult::FavorTwo(a) => EvalResult::FavorTwo((a + 1) as u8),
        EvalResult::Evaluate(v) => EvalResult::Evaluate(v),
    }
}

impl EvalResult {
    /// One ply climbed in the game tree. The caller keeps forced-outcome
    /// distances below the type's ceiling.
    pub fn level_up(&self) -> (r: EvalResult)
        requires
            (match *self {
                EvalResult::FavorOne(a) => a < 255,
                EvalResult::FavorTwo(a) => a < 255,
                EvalResult::Evaluate(_) => true,
            }),
        ensures
            r == spec_level_up(*self),
    {
        match self {
            EvalResult::FavorOne(a) => EvalResult::FavorOne(*a + 1),
            EvalResult::FavorTwo(a) => EvalResult::FavorTwo(*a + 1),
            f => *f,
        }
    }
}

impl PartialOrd for EvalResult {
    fn partial_cmp(&self, other: &EvalResult) -> (r: Option<Ordering>) {
        Some(
            match (self, other) {
                // between two wins for the same player, the sooner one is
                // "greater" for that player
                (EvalResult::FavorOne(a), EvalResult::FavorOne(b)) => if *b < *a {
                    Ordering::Less
                } else if *b == *a {
                    Ordering::Equal
                } else {
                    Ordering::Greater
                },
                (EvalResult::FavorOne(_), EvalResult::Evaluate(_)) => Ordering::Greater,
                (EvalResult::FavorOne(_), EvalResult::FavorTwo(_)) => Ordering::Greater,
                (EvalResult::Evaluate(_), EvalResult::FavorOne(_)) => Ordering::Less,
                (EvalResult::Evaluate(a), EvalResult::Evaluate(b)) => if *a < *b {
                    Ordering::Less
                } else if *a == *b {
                    Ordering::Equal
                } else {
                    Ordering::Greater
                },
                (EvalResult::Evaluate(_), EvalResult::FavorTwo(_)) => Ordering::Greater,
                (EvalResult::FavorTwo(_), EvalResult::FavorOne(_)) => Ordering::Less,
                (EvalResult::FavorTwo(_), EvalResult::Evaluate(_)) => Ordering::Less,
                (EvalResult::FavorTwo(a), EvalResult::FavorTwo(b)) => if *a < *b {
                    Ordering::Less
                } else if *a == *b {
                    Ordering::Equal
                } else {
                    Ordering::Greater
                },
            },
        )
    }
}

impl vstd::std_specs::cmp::PartialOrdSpecImpl for EvalResult {
    open spec fn obeys_partial_cmp_spec() -> bool {
        true
    }

    open spec fn partial_cmp_spec(&self, other: &EvalResult) -> Option<Ordering> {
        if spec_rank(*self) < spec_rank(*other) {
            Some(Ordering::Less)
        } else if spec_rank(*self) == spec_rank(*other) {
            Some(Ordering::Equal)
        } else {
            Some(Ordering::Greater)
        }
    }
}

/// Law: the total order of search outcomes. Any player-one forced win beats
/// any heuristic score, any heuristic score beats any player-two forced
/// win; a sooner player-one win beats a later one, a later player-two win
/// beats a sooner one; heuristic scores order by value.
pub proof fn lemma_eval_order(a: u8, b: u8, v: i32, w: i32)
    ensures
        spec_rank(EvalResult::Evaluate(v)) < spec_rank(EvalResult::FavorOne(a)),
        spec_rank(EvalResult::FavorTwo(a)) < spec_rank(EvalResult::Evaluate(v)),
        a < b ==> spec_rank(EvalResult::FavorOne(b)) < spec_rank(EvalResult::FavorOne(a)),
        a < b ==> spec_rank(EvalResult::FavorTwo(a)) < spec_rank(EvalResult::FavorTwo(b)),
        v < w ==> spec_rank(EvalResult::Evaluate(v)) < spec_rank(EvalResult::Evaluate(w)),
        forall|x: EvalResult, y: EvalResult|
            #[trigger] x.partial_cmp_spec(&y) == Some(Ordering::Greater) <==> spec_rank(x)
                > spec_rank(y),
{
}

} // verus!
