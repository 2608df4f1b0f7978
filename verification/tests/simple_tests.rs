use newcular::board::{Mov, MoveError, PieceKind, Player};
use newcular::simple::{check_pos, SimpleBoard, SimpleMove};

#[test]
fn simple_opening_board_moves() {
    let board = SimpleBoard::init();
    assert_eq!(
        board
            .get_moves()
            .iter()
            .map(|m| m.notation())
            .collect::<Vec<String>>(),
        vec![
            "B1B1", "B1C3", "B1A3", "C1C1", "C1C2", "C1C3", "D1D1", "D1C2", "D1E2", "E1E1",
            "E1E2", "E1E3", "F1F1", "F1G3", "F1E3", "D2D2", "D2E3", "D2F4", "D2G5", "D2C3",
            "D2B4", "D2A5", "D3D3", "A4A4", "A4A5", "C4C4", "C4C5", "E4E4", "E4E5", "G4G4",
            "G4G5",
        ]
    )
}

#[test]
fn check_pos_rejects_off_board_squares() {
    assert_eq!(check_pos((8, 6)), Ok((8, 6)));
    assert_eq!(check_pos((9, 0)), Err(MoveError::InvalidPosition));
    assert_eq!(check_pos((0, 7)), Err(MoveError::InvalidPosition));
}

#[test]
fn simple_explosion_clears_neighborhood_and_kills_king() {
    let mut board = SimpleBoard::init();
    let mov = board
        .get_moves()
        .into_iter()
        .find(|m| m.notation() == "D2D2")
        .unwrap();
    board.do_move(&mov);
    for (row, col) in [(0u8, 2u8), (0, 3), (0, 4), (1, 2), (1, 3), (1, 4), (2, 2), (2, 3), (2, 4)]
    {
        assert_eq!(board.get_piece(row, col), None);
    }
    assert!(board.get_piece(0, 1).is_some());
    assert_eq!(board.get_winner(), Some(Player::PlayerTwo));
}

#[test]
fn simple_move_relocates_piece() {
    let mut board = SimpleBoard::init();
    let mov = board
        .get_moves()
        .into_iter()
        .find(|m| m.notation() == "C1C2")
        .unwrap();
    board.do_move(&mov);
    assert_eq!(board.get_piece(0, 2), None);
    assert_eq!(board.get_piece(1, 2), Some((Player::PlayerOne, PieceKind::R)));
    assert_eq!(board.get_player(), Player::PlayerTwo);
}

#[test]
fn simple_init_layout() {
    let board = SimpleBoard::init();
    assert_eq!(board.get_player(), Player::PlayerOne);
    assert_eq!(board.get_piece(0, 3), Some((Player::PlayerOne, PieceKind::K)));
    assert_eq!(board.get_piece(8, 3), Some((Player::PlayerTwo, PieceKind::K)));
    assert_eq!(board.get_piece(1, 3), Some((Player::PlayerOne, PieceKind::B)));
    assert_eq!(board.get_piece(3, 0), Some((Player::PlayerOne, PieceKind::P)));
    assert_eq!(board.get_piece(5, 6), Some((Player::PlayerTwo, PieceKind::P)));
    assert_eq!(board.get_piece(4, 3), None);
    assert_eq!(board.get_winner(), None);
}

#[test]
fn simple_move_notation_round_trip() {
    let m = SimpleMove { from_rc: (0, 1), dest_rc: (2, 2) };
    assert_eq!(m.notation(), "B1C3");
    assert_eq!(m.get_from_dest(), ((0, 1), (2, 2)));
}
