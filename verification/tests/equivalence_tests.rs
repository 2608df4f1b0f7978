use newcular::bitboard::{BitBoard, BitBoardMove};
use newcular::board::{Mov, PieceKind, Player};
use newcular::simple::SimpleBoard;
use rand::rngs::StdRng;
use rand::seq::SliceRandom;
use rand::SeedableRng;

fn simple_moves_sorted(b: &SimpleBoard) -> Vec<String> {
    let mut moves: Vec<String> = b.get_moves().into_iter().map(|m| m.notation()).collect();
    moves.sort();
    moves
}

fn bitboard_moves_sorted(b: &BitBoard) -> Vec<String> {
    let mut moves: Vec<String> = b.get_moves().into_iter().map(|m| m.notation()).collect();
    moves.sort();
    moves
}

fn piece_char(p: Option<(Player, PieceKind)>) -> char {
    match p {
        Some((Player::PlayerOne, PieceKind::B)) => 'B',
        Some((Player::PlayerOne, PieceKind::K)) => 'K',
        Some((Player::PlayerOne, PieceKind::N)) => 'N',
        Some((Player::PlayerOne, PieceKind::R)) => 'R',
        Some((Player::PlayerOne, PieceKind::P)) => 'P',
        Some((Player::PlayerTwo, PieceKind::B)) => 'b',
        Some((Player::PlayerTwo, PieceKind::K)) => 'k',
        Some((Player::PlayerTwo, PieceKind::N)) => 'n',
        Some((Player::PlayerTwo, PieceKind::R)) => 'r',
        Some((Player::PlayerTwo, PieceKind::P)) => 'p',
        None => '-',
    }
}

fn render_simple(b: &SimpleBoard) -> String {
    let mut s = String::new();
    for row in (0..9u8).rev() {
        for col in 0..7u8 {
            s.push(piece_char(b.get_piece(row, col)));
        }
        s.push('\n');
    }
    s
}

fn render_bitboard(b: &BitBoard) -> String {
    let mut s = String::new();
    for row in (0..9u8).rev() {
        for col in 0..7u8 {
            s.push(piece_char(b.get_piece(row, col)));
        }
        s.push('\n');
    }
    s
}

#[test]
fn test_board_equivalence() {
    // version stability not important
    let mut rng = StdRng::seed_from_u64(42);

    for _ in 0..10000 {
        let mut simple = SimpleBoard::init();
        let mut bitboard = BitBoard::init();
        let mut moves = vec![];

        loop {
            assert_eq!(
                simple.get_winner(),
                bitboard.get_winner(),
                "winners not eq after {:?}",
                moves.join(" ")
            );

            if let Some(_) = simple.get_winner() {
                break;
            }

            let simple_moves = simple_moves_sorted(&simple);
            let bitboard_moves = bitboard_moves_sorted(&bitboard);
            assert_eq!(
                simple_moves,
                bitboard_moves,
                "movegen not eq after {:?}\n{}\n{}",
                moves.join(" "),
                render_simple(&simple),
                render_bitboard(&bitboard)
            );

            let simple_moves = simple.get_moves();
            let picked_move = simple_moves.choose(&mut rng).unwrap();
            moves.push(picked_move.notation());
            simple.do_move(picked_move);
            let (from, dest) = picked_move.get_from_dest();
            bitboard.do_move(&BitBoardMove::from_from_dest(from, dest).unwrap());
        }
    }
}
