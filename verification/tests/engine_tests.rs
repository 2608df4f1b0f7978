use newcular::abmax::ABMax;
use newcular::bitboard::BitBoard;
use newcular::board::{PieceKind, Player};
use newcular::eval::EvalResult;
use newcular::heuristic::{eval_bitboard, piece_rank};
use newcular::minimax::MiniMax;
use newcular::simple::SimpleBoard;
use newcular::ttable::TTable;

#[test]
fn it_works() {
    let result = newcular::add(2, 2);
    assert_eq!(result, 4);
}

#[test]
fn eval_result_total_order() {
    assert!(EvalResult::FavorOne(2) > EvalResult::FavorOne(5));
    assert!(EvalResult::FavorOne(5) > EvalResult::Evaluate(1_000_000));
    assert!(EvalResult::Evaluate(1_000_000) > EvalResult::Evaluate(-1_000_000));
    assert!(EvalResult::Evaluate(-1_000_000) > EvalResult::FavorTwo(5));
    assert!(EvalResult::FavorTwo(5) > EvalResult::FavorTwo(2));
}

#[test]
fn level_up_moves_forced_outcomes_one_ply() {
    assert_eq!(EvalResult::FavorOne(3).level_up(), EvalResult::FavorOne(4));
    assert_eq!(EvalResult::FavorTwo(0).level_up(), EvalResult::FavorTwo(1));
    assert_eq!(EvalResult::Evaluate(7).level_up(), EvalResult::Evaluate(7));
}

#[test]
fn ttable_write_is_monotonic_in_depth() {
    let mut table = TTable::new();
    let board = BitBoard::init();
    table.write(board, 5, EvalResult::Evaluate(55), 0);
    table.write(board, 3, EvalResult::Evaluate(33), 1);
    let entry = table.load(board);
    assert_eq!(entry.plies, 5);
    assert_eq!(entry.value, Some(EvalResult::Evaluate(55)));
    assert_eq!(entry.killer_move_index, 0);
}

#[test]
fn ttable_load_caches_move_list() {
    let mut table = TTable::new();
    let board = BitBoard::init();
    let entry = table.load(board);
    assert_eq!(entry.plies, 0);
    assert_eq!(entry.value, None);
    assert_eq!(entry.moves.len(), board.get_moves().len());
}

#[test]
fn piece_ranks() {
    assert_eq!(piece_rank(&PieceKind::K), 50);
    assert_eq!(piece_rank(&PieceKind::B), 5);
    assert_eq!(piece_rank(&PieceKind::R), 5);
    assert_eq!(piece_rank(&PieceKind::N), 3);
    assert_eq!(piece_rank(&PieceKind::P), 1);
}

#[test]
fn opening_material_is_balanced() {
    assert_eq!(eval_bitboard(&BitBoard::init()), 0);
}

#[test]
fn eval_bitboard_counts_material() {
    // only the two kings and one player-one rook on the board
    let sparse = BitBoard {
        current_player: Player::PlayerOne,
        piece_mask: (1u64 << 0) | (1u64 << 52) | (1u64 << 59),
        player_one_mask: (1u64 << 0) | (1u64 << 52),
        bishop_mask: 0,
        king_mask: (1u64 << 0) | (1u64 << 59),
        knight_mask: 0,
        rook_mask: 1u64 << 52,
        pawn_mask: 0,
    };
    assert_eq!(eval_bitboard(&sparse), 5);
}

#[test]
fn minimax_chooses_a_legal_move() {
    let engine = MiniMax { eval: |b: &SimpleBoard| {
        let _ = b;
        0
    } };
    let board = SimpleBoard::init();
    let (mov, _score) = engine.choose_best(&board, 1);
    let legal: Vec<String> = board.get_moves().iter().map(|m| m.notation()).collect();
    assert!(legal.contains(&mov.notation()));
}

#[test]
fn abmax_chooses_a_legal_move() {
    let mut engine = ABMax::new(|b: &BitBoard| eval_bitboard(b));
    let board = BitBoard::init();
    let (mov, _score) = engine.choose_best(&board, 2).unwrap();
    let legal: Vec<String> = board.get_moves().iter().map(|m| m.notation()).collect();
    assert!(legal.contains(&mov.notation()));
}

#[test]
fn iterdeep_finds_forced_win() {
    // player one's rook stands beside player two's king; exploding it wins
    let board = BitBoard {
        current_player: Player::PlayerOne,
        piece_mask: (1u64 << 0) | (1u64 << 52) | (1u64 << 59),
        player_one_mask: (1u64 << 0) | (1u64 << 52),
        bishop_mask: 0,
        king_mask: (1u64 << 0) | (1u64 << 59),
        knight_mask: 0,
        rook_mask: 1u64 << 52,
        pawn_mask: 0,
    };
    assert_eq!(board.get_winner(), None);
    let mut engine = ABMax::new(|b: &BitBoard| eval_bitboard(b));
    let (mov, score) = engine.choose_best_iterdeep(&board).unwrap();
    let legal: Vec<String> = board.get_moves().iter().map(|m| m.notation()).collect();
    assert!(legal.contains(&mov.notation()));
    assert!(matches!(score, EvalResult::FavorOne(_)));
    // the chosen move does win on the spot
    let mut after = board;
    after.do_move(&mov);
    assert_eq!(after.get_winner(), Some(Player::PlayerOne));
}

#[test]
fn player_helpers() {
    assert_eq!(Player::PlayerOne.other(), Player::PlayerTwo);
    assert_eq!(Player::PlayerTwo.other(), Player::PlayerOne);
    assert_eq!(Player::PlayerOne.parity(), 1);
    assert_eq!(Player::PlayerTwo.parity(), -1);
    assert_eq!(Player::PlayerOne.ord(), 1);
    assert_eq!(Player::PlayerTwo.ord(), 2);
}
