use chessboard::board::BoardCoordinates;
use chessboard::pieces::{piece_image_path, PieceColor, PieceType};

#[test]
fn square_decoding() {
    let c = BoardCoordinates::from_bit(0);
    assert_eq!((c.col, c.row), (0, 0));
    assert_eq!(c.label(), "a1");
    let c = BoardCoordinates::from_bit(63);
    assert_eq!((c.col, c.row), (7, 7));
    assert_eq!(c.label(), "h8");
    let c = BoardCoordinates::from_bit(8);
    assert_eq!(c.label(), "a2");
    let c = BoardCoordinates::from_bit(29);
    assert_eq!((c.col, c.row), (5, 3));
    assert_eq!(c.label(), "f4");
}

#[test]
fn square_shading() {
    assert!(BoardCoordinates { col: 0, row: 0 }.is_dark());
    assert!(!BoardCoordinates { col: 1, row: 0 }.is_dark());
    assert!(BoardCoordinates { col: 7, row: 7 }.is_dark());
    assert!(!BoardCoordinates { col: 6, row: 3 }.is_dark());
}

#[test]
fn image_paths() {
    assert_eq!(piece_image_path(PieceType::Pawn, PieceColor::White), "pieces/01_classic/w-pawn.png");
    assert_eq!(piece_image_path(PieceType::King, PieceColor::Black), "pieces/01_classic/b-king.png");
    assert_eq!(piece_image_path(PieceType::Knight, PieceColor::Black), "pieces/01_classic/b-knight.png");
    assert_eq!(piece_image_path(PieceType::Queen, PieceColor::White), "pieces/01_classic/w-queen.png");
}
