use chessboard::bitboard::BitBoard;
use chessboard::board::BoardCoordinates;
use chessboard::game::GameState;
use chessboard::pieces::{PieceColor, PieceType};

const KINDS: [PieceType; 6] = [
    PieceType::Pawn,
    PieceType::Knight,
    PieceType::Bishop,
    PieceType::Rook,
    PieceType::Queen,
    PieceType::King,
];
const COLORS: [PieceColor; 2] = [PieceColor::White, PieceColor::Black];

#[test]
fn default_white_pawns_fill_rank_two() {
    let g = GameState::default();
    assert_eq!(g.white_pawn, BitBoard(0x0000_0000_0000_ff00));
    let ps = g.white_pawn.get_piece_positions();
    assert_eq!(ps, vec![8, 9, 10, 11, 12, 13, 14, 15]);
    let sq = BoardCoordinates::from_bit(ps[0]);
    assert_eq!(sq.col, 0);
    assert_eq!(sq.row, 1);
    assert_eq!(sq.label(), "a2");
}

#[test]
fn default_white_king_on_e1() {
    let g = GameState::default();
    assert_eq!(g.white_king.0.count_ones(), 1);
    assert_eq!(g.white_king.get_piece_positions(), vec![4]);
    assert_eq!(BoardCoordinates::from_bit(4).label(), "e1");
}

#[test]
fn default_layout_constants() {
    let g = GameState::default();
    assert_eq!(g.black_pawn, BitBoard(0x00ff_0000_0000_0000));
    assert_eq!(g.white_knight, BitBoard(0x42));
    assert_eq!(g.black_knight, BitBoard(0x4200_0000_0000_0000));
    assert_eq!(g.white_bishop, BitBoard(0x24));
    assert_eq!(g.black_bishop, BitBoard(0x2400_0000_0000_0000));
    assert_eq!(g.white_rook, BitBoard(0x81));
    assert_eq!(g.black_rook, BitBoard(0x8100_0000_0000_0000));
    assert_eq!(g.white_queen, BitBoard(0x08));
    assert_eq!(g.black_queen, BitBoard(0x0800_0000_0000_0000));
    assert_eq!(g.white_king, BitBoard(0x10));
    assert_eq!(g.black_king, BitBoard(0x1000_0000_0000_0000));
    assert_eq!(g.black_king.get_piece_positions(), vec![60]);
    assert_eq!(g.white_queen.get_piece_positions(), vec![3]);
}

#[test]
fn default_boards_are_disjoint() {
    let g = GameState::default();
    for (i, k1) in KINDS.iter().enumerate() {
        for (j, k2) in KINDS.iter().enumerate() {
            for (a, c1) in COLORS.iter().enumerate() {
                for (b, c2) in COLORS.iter().enumerate() {
                    if (i, a) != (j, b) {
                        assert_eq!(g.board(*k1, *c1) & g.board(*k2, *c2), BitBoard(0));
                    }
                }
            }
        }
    }
}

#[test]
fn board_lookup_matches_fields() {
    let g = GameState::default();
    assert_eq!(g.board(PieceType::Pawn, PieceColor::White), g.white_pawn);
    assert_eq!(g.board(PieceType::Queen, PieceColor::Black), g.black_queen);
    assert_eq!(g.board(PieceType::Knight, PieceColor::Black), g.black_knight);
}

#[test]
fn white_aggregate_is_union_of_six() {
    let g = GameState::default();
    let mut union = BitBoard(0);
    for k in KINDS {
        union = union | g.board(k, PieceColor::White);
    }
    assert_eq!(g.white_pieces(), union);
    assert_eq!(g.all_occupied_by(PieceColor::White), union);
    assert_eq!(g.white_pieces(), BitBoard(0xffff));
    assert_eq!(g.white_pieces().0.count_ones(), 16);
}

#[test]
fn black_aggregate_is_union_of_six() {
    let g = GameState::default();
    assert_eq!(g.black_pieces(), BitBoard(0xffff_0000_0000_0000));
    assert_eq!(g.all_occupied_by(PieceColor::Black), g.black_pieces());
    assert_eq!(g.black_pieces().0.count_ones(), 16);
    assert_eq!(g.white_pieces() & g.black_pieces(), BitBoard(0));
}

#[test]
fn empty_kind_contributes_nothing() {
    let mut g = GameState::default();
    g.white_queen = BitBoard(0);
    assert_eq!(g.white_pieces(), BitBoard(0xfff7));
    assert_eq!(g.all_occupied_by(PieceColor::White), BitBoard(0xfff7));
}
