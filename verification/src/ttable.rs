use vstd::prelude::*;

use crate::bitboard::{spec_moves, BitBoard, BitBoardMove};
use crate::eval::EvalResult;

verus! {

/// One cache line: the deepest ply depth searched so far for the key
/// position, the outcome found at that depth, the index of the best move
/// found within the cached move list (the killer move), and that list.
pub struct TTableEntry {
    pub plies: u8,
    pub value: Option<EvalResult>,
    pub killer_move_index: usize,
    pub moves: Vec<BitBoardMove>,
}

/// The mathematical content of one cache line.
#[verifier::ext_equal]
pub struct EntryModel {
    pub plies: u8,
    pub value: Option<EvalResult>,
    pub killer: int,
    pub moves: Seq<BitBoardMove>,
}

pub open spec fn entry_view(e: TTableEntry) -> EntryModel {
    EntryModel {
        plies: e.plies,
        value: e.value,
        killer: e.killer_move_index as int,
        moves: e.moves@,
    }
}

/// The cache line a first access creates for position `b`: depth zero, no
/// outcome yet, and the position's move list pre-computed.
pub open spec fn fresh_entry(b: BitBoard) -> EntryModel {
    EntryModel { plies: 0, value: None, killer: 0, moves: spec_moves(b) }
}

/// First-match association lookup.
pub open spec fn spec_assoc(s: Seq<(BitBoard, TTableEntry)>, b: BitBoard) -> Option<EntryModel>
    decreases s.len(),
{
    if s.len() == 0 {
        None
    } else if s[0].0 == b {
        Some(entry_view(s[0].1))
    } else {
        spec_assoc(s.drop_first(), b)
    }
}

/// What a write leaves in a cache line: a write at depth `plies` replaces
/// the stored depth, outcome and killer index only if `plies` is at least
/// the stored depth; the cached move list always stays.
pub open spec fn spec_write_entry(
    e0: Option<EntryModel>,
    plies: u8,
    value: EvalResult,
    killer: int,
    fresh: EntryModel,
) -> EntryModel {
    let e = match e0 {
        Some(e) => e,
        None => fresh,
    };
    if plies >= e.plies {
        EntryModel { plies, value: Some(value), killer, moves: e.moves }
    } else {
        e
    }
}

/// A sound cache line for key `b`: the cached list is the key's own legal
/// move list and the killer index points into it.
pub open spec fn entry_ok(b: BitBoard, e: EntryModel) -> bool {
    &&& e.moves == spec_moves(b)
    &&& (e.killer < e.moves.len() || (e.moves.len() == 0 && e.killer == 0))
    &&& forall|i: int|
        0 <= i < e.moves.len() ==> (#[trigger] e.moves[i]).from_pos < 63 && e.moves[i].dest_pos
            < 63
}

/// Law: a deeper write followed by a shallower one is a no-op for the
/// shallower write: the stored depth, outcome and killer stay those of the
/// deeper write.
pub proof fn lemma_write_monotonic(
    e0: Option<EntryModel>,
    d1: u8,
    v1: EvalResult,
    k1: int,
    d2: u8,
    v2: EvalResult,
    k2: int,
    fresh: EntryModel,
)
    requires
        d2 < d1,
    ensures
        ({
            let e1 = spec_write_entry(e0, d1, v1, k1, fresh);
            let e2 = spec_write_entry(Some(e1), d2, v2, k2, fresh);
            &&& e2 == e1
            &&& (match e0 {
                Some(e) => e.plies <= d1,
                None => fresh.plies <= d1,
            }) ==> (e1.plies == d1 && e1.value == Some(v1) && e1.killer == k1)
        }),
{
}

/// One cache line refines another: a line never vanishes, its cached move
/// list never changes, its stored depth never decreases, and its stored
/// outcome is only ever replaced by a completed written one, never erased.
pub open spec fn entry_refines(e0: Option<EntryModel>, e1: Option<EntryModel>) -> bool {
    match e0 {
        Some(e) => e1 matches Some(e2) && e2.plies >= e.plies && e2.moves == e.moves && (e2.value
            != e.value ==> e2.value is Some),
        None => true,
    }
}

/// The transposition table: search results memoized by position, keyed by
/// full structural equality.
pub struct TTable {
    entries: Vec<(BitBoard, TTableEntry)>,
}

fn clone_moves(v: &Vec<BitBoardMove>) -> (r: Vec<BitBoardMove>)
    ensures
        r@ == v@,
{
    let mut r: Vec<BitBoardMove> = Vec::new();
    let mut i: usize = 0;
    while i < v.len()
        invariant
            i <= v@.len(),
            r@ =~= v@.subrange(0, i as int),
        decreases v@.len() - i,
    {
        r.push(v[i]);
        i = i + 1;
    }
    proof {
        assert(v@.subrange(0, v@.len() as int) =~= v@);
    }
    r
}

/// Looking up one key is unchanged by updating the line of a different key,
/// and finds the updated line for the key itself.
proof fn lemma_assoc_update(s: Seq<(BitBoard, TTableEntry)>, i: int, p: (BitBoard, TTableEntry), b: BitBoard)
    requires
        0 <= i < s.len(),
        p.0 == s[i].0,
        forall|j: int| 0 <= j < i ==> (#[trigger] s[j]).0 != s[i].0,
    ensures
        spec_assoc(s.update(i, p), s[i].0) == Some(entry_view(p.1)),
        b != s[i].0 ==> spec_assoc(s.update(i, p), b) == spec_assoc(s, b),
    decreases s.len(),
{
    let s2 = s.update(i, p);
    if i == 0 {
        assert(s2[0] == p);
        assert(s2.drop_first() =~= s.drop_first());
    } else {
        assert(s2[0] == s[0]);
        assert(s[0].0 != s[i].0);
        assert(s2.drop_first() =~= s.drop_first().update(i - 1, p));
        assert(s.drop_first()[i - 1] == s[i]);
        assert(forall|j: int|
            0 <= j < i - 1 ==> (#[trigger] s.drop_first()[j]).0 != s.drop_first()[i - 1].0);
        lemma_assoc_update(s.drop_first(), i - 1, p, b);
    }
}

impl TTable {
    /// The cached line for position `b`, if any.
    pub closed spec fn spec_find(self, b: BitBoard) -> Option<EntryModel> {
        spec_assoc(self.entries@, b)
    }

    /// Every key is well formed and cached at most once, and every line is
    /// sound for its key.
    pub closed spec fn wf(self) -> bool {
        &&& forall|i: int, j: int|
            0 <= i < j < self.entries@.len() ==> (#[trigger] self.entries@[i]).0 != (
            #[trigger] self.entries@[j]).0
        &&& forall|i: int|
            0 <= i < self.entries@.len() ==> (#[trigger] self.entries@[i]).0.wf() && entry_ok(
                self.entries@[i].0,
                entry_view(self.entries@[i].1),
            )
    }

    /// An empty table.
    pub fn new() -> (r: Self)
        ensures
            r.wf(),
            forall|b: BitBoard| r.spec_find(b) is None,
    {
        TTable { entries: Vec::new() }
    }

    fn find_index(&self, board: &BitBoard) -> (r: Option<usize>)
        ensures
            match r {
                Some(i) => i < self.entries@.len() && self.entries@[i as int].0 == *board && (
                forall|j: int| 0 <= j < i ==> (#[trigger] self.entries@[j]).0 != *board)
                    && self.spec_find(*board) == Some(entry_view(self.entries@[i as int].1)),
                None => self.spec_find(*board) is None && (forall|j: int|
                    0 <= j < self.entries@.len() ==> (#[trigger] self.entries@[j]).0 != *board),
            },
    {
        let s = &self.entries;
        let mut j: usize = 0;
        proof {
            assert(s@.skip(0) =~= s@);
        }
        while j < s.len()
            invariant
                j <= s@.len(),
                s@ == self.entries@,
                spec_assoc(s@, *board) == spec_assoc(s@.skip(j as int), *board),
                forall|j2: int| 0 <= j2 < j ==> (#[trigger] s@[j2]).0 != *board,
            decreases s@.len() - j,
        {
            proof {
                assert(s@.skip(j as int).len() > 0);
                assert(s@.skip(j as int)[0] == s@[j as int]);
                assert(s@.skip(j as int).drop_first() =~= s@.skip(j as int + 1));
            }
            let pr: &(BitBoard, TTableEntry) = &s[j];
            if pr.0 == *board {
                return Some(j);
            }
            j = j + 1;
        }
        proof {
            assert(s@.skip(s@.len() as int).len() == 0);
        }
        None
    }

    /// The cached line for `board`, creating a fresh one (depth zero, no
    /// outcome, the position's move list pre-computed) on first access.
    pub fn load(&mut self, board: BitBoard) -> (r: TTableEntry)
        requires
            old(self).wf(),
            board.wf(),
        ensures
            final(self).wf(),
            entry_view(r) == (match old(self).spec_find(board) {
                Some(e) => e,
                None => fresh_entry(board),
            }),
            final(self).spec_find(board) == Some(entry_view(r)),
            forall|b2: BitBoard| b2 != board ==> final(self).spec_find(b2) == old(self).spec_find(b2),
            entry_ok(board, entry_view(r)),
    {
        match self.find_index(&board) {
            Some(i) => {
                let e = &self.entries[i].1;
                TTableEntry {
                    plies: e.plies,
                    value: e.value,
                    killer_move_index: e.killer_move_index,
                    moves: clone_moves(&e.moves),
                }
            },
            None => {
                let moves = board.get_moves();
                let stored = TTableEntry {
                    plies: 0,
                    value: None,
                    killer_move_index: 0,
                    moves: clone_moves(&moves),
                };
                let ghost pre = self.entries@;
                self.entries.insert(0, (board, stored));
                proof {
                    assert(self.entries@[0].0 == board);
                    assert(self.entries@.drop_first() =~= pre);
                    assert forall|b2: BitBoard| b2 != board implies spec_assoc(
                        self.entries@,
                        b2,
                    ) == spec_assoc(pre, b2) by {
                        assert(self.entries@.drop_first() =~= pre);
                    }
                }
                TTableEntry { plies: 0, value: None, killer_move_index: 0, moves }
            },
        }
    }

    /// Records the outcome of searching `board` to depth `plies`. The write
    /// replaces the stored line only if it is at least as deep as what is
    /// stored: a shallower result never clobbers a deeper one.
    pub fn write(&mut self, board: BitBoard, plies: u8, value: EvalResult, killer_move_idx: usize)
        requires
            old(self).wf(),
            board.wf(),
            killer_move_idx < spec_moves(board).len() || (spec_moves(board).len() == 0
                && killer_move_idx == 0),
        ensures
            final(self).wf(),
            final(self).spec_find(board) == Some(
                spec_write_entry(
                    old(self).spec_find(board),
                    plies,
                    value,
                    killer_move_idx as int,
                    fresh_entry(board),
                ),
            ),
            forall|b2: BitBoard| b2 != board ==> final(self).spec_find(b2) == old(self).spec_find(b2),
    {
        match self.find_index(&board) {
            Some(i) => {
                let e = &self.entries[i].1;
                if plies >= e.plies {
                    let replacement = (
                        board,
                        TTableEntry {
                            plies,
                            value: Some(value),
                            killer_move_index: killer_move_idx,
                            moves: clone_moves(&e.moves),
                        },
                    );
                    let ghost pre = self.entries@;
                    self.entries.set(i, replacement);
                    proof {
                        lemma_assoc_update(pre, i as int, (board, replacement.1), board);
                        assert forall|b2: BitBoard| b2 != board implies spec_assoc(
                            self.entries@,
                            b2,
                        ) == spec_assoc(pre, b2) by {
                            lemma_assoc_update(pre, i as int, (board, replacement.1), b2);
                        }
                        assert(entry_view(replacement.1) =~= spec_write_entry(
                            old(self).spec_find(board),
                            plies,
                            value,
                            killer_move_idx as int,
                            fresh_entry(board),
                        ));
                    }
                }
            },
            None => {
                let moves = board.get_moves();
                let stored = TTableEntry {
                    plies,
                    value: Some(value),
                    killer_move_index: killer_move_idx,
                    moves,
                };
                let ghost pre = self.entries@;
                self.entries.insert(0, (board, stored));
                proof {
                    assert(self.entries@[0].0 == board);
                    assert(self.entries@.drop_first() =~= pre);
                    assert forall|b2: BitBoard| b2 != board implies spec_assoc(
                        self.entries@,
                        b2,
                    ) == spec_assoc(pre, b2) by {
                        assert(self.entries@.drop_first() =~= pre);
                    }
                    assert(entry_view(self.entries@[0].1) =~= spec_write_entry(
                        old(self).spec_find(board),
                        plies,
                        value,
                        killer_move_idx as int,
                        fresh_entry(board),
                    ));
                }
            },
        }
    }
}

} // verus!
