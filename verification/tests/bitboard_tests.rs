use newcular::bitboard::{flip_vertical, BitBoard, BitBoardMove};
use newcular::board::{Mov, Player};
use newcular::replay::play_board_moves;

#[test]
fn bitboard_opening_board_moves() {
    let board = BitBoard::init();
    let mut moves = board
        .get_moves()
        .iter()
        .map(|m| m.notation())
        .collect::<Vec<String>>();
    moves.sort();
    let mut expected = vec![
        "B1B1", "B1C3", "B1A3", "C1C1", "C1C2", "C1C3", "D1D1", "D1C2", "D1E2", "E1E1", "E1E2",
        "E1E3", "F1F1", "F1G3", "F1E3", "D2D2", "D2E3", "D2F4", "D2G5", "D2C3", "D2B4", "D2A5",
        "D3D3", "A4A4", "A4A5", "C4C4", "C4C5", "E4E4", "E4E5", "G4G4", "G4G5",
    ];
    expected.sort();
    assert_eq!(moves, expected)
}

#[test]
fn test_flip_vertical() {
    assert_eq!(
        format!("{:x}", flip_vertical(0xffffffffffffffffu64)),
        format!("{:x}", 0x7fffffffffffffffu64),
    );
}

#[test]
fn opening_position_is_undecided() {
    let board = BitBoard::init();
    assert_eq!(board.get_winner(), None);
    assert_eq!(board.get_player(), Player::PlayerOne);
}

#[test]
fn invert_is_an_involution() {
    let board = BitBoard::init();
    assert!(board.invert().invert() == board);
    // also after a few moves
    let board = play_board_moves(&vec!["C1C2".to_string(), "C9C8".to_string()]).unwrap();
    assert!(board.invert().invert() == board);
}

#[test]
fn player_two_moves_are_reflected_player_one_moves() {
    // after one opening move player two is to move
    let board = play_board_moves(&vec!["C1C2".to_string()]).unwrap();
    assert_eq!(board.get_player(), Player::PlayerTwo);
    let direct: Vec<String> = board.get_moves().iter().map(|m| m.notation()).collect();
    let reflected: Vec<String> = board
        .invert()
        .get_moves()
        .iter()
        .map(|m| m.invert().notation())
        .collect();
    assert_eq!(direct, reflected);
}

#[test]
fn explosion_clears_neighborhood_and_kills_king() {
    // the bishop on D2 self-destructs; the blast covers C1..E3 and takes
    // player one's own king on D1 with it
    let mut board = BitBoard::init();
    let mov = board
        .get_moves()
        .into_iter()
        .find(|m| m.notation() == "D2D2")
        .unwrap();
    board.do_move(&mov);
    for (row, col) in [(0u8, 2u8), (0, 3), (0, 4), (1, 2), (1, 3), (1, 4), (2, 2), (2, 3), (2, 4)]
    {
        assert_eq!(board.get_piece(row, col), None);
    }
    // squares outside the blast keep their pieces
    assert!(board.get_piece(0, 1).is_some());
    assert!(board.get_piece(3, 0).is_some());
    // player one's king is gone, so player two wins at once
    assert_eq!(board.get_winner(), Some(Player::PlayerTwo));
}

#[test]
fn capture_moves_piece_and_flips_player() {
    let board = BitBoard::init();
    let mov = board
        .get_moves()
        .into_iter()
        .find(|m| m.notation() == "C1C2")
        .unwrap();
    let mut board2 = board;
    board2.do_move(&mov);
    assert_eq!(board2.get_piece(0, 2), None);
    assert_eq!(board2.get_piece(1, 2), board.get_piece(0, 2));
    assert_eq!(board2.get_player(), Player::PlayerTwo);
}

#[test]
fn from_from_dest_packs_squares() {
    let m = BitBoardMove::from_from_dest((0, 1), (2, 2)).unwrap();
    assert_eq!(m.notation(), "B1C3");
    assert_eq!(m.get_from_dest(), ((0, 1), (2, 2)));
}

#[test]
fn array_representation_reports_bit_planes() {
    let board = BitBoard::init();
    let rep = board.array_representation();
    // occupancy: knight on (0,1), empty corner (0,0)
    assert_eq!(rep[0][0][1], 1);
    assert_eq!(rep[0][0][0], 0);
    // kings on D1 and D9
    assert_eq!(rep[3][0][3], 1);
    assert_eq!(rep[3][8][3], 1);
    // ownership: player one holds row 0, not row 8
    assert_eq!(rep[1][0][3], 1);
    assert_eq!(rep[1][8][3], 0);
}

#[test]
fn replay_reports_first_bad_token() {
    assert!(play_board_moves(&vec!["B1C3".to_string()]).is_ok());
    assert!(play_board_moves(&vec!["Z9Z9".to_string()]) == Err(0));
    assert!(play_board_moves(&vec!["B1C3".to_string(), "B1C3".to_string()]) == Err(1));
    let replayed = play_board_moves(&vec![]).unwrap();
    assert!(replayed == BitBoard::init());
}
