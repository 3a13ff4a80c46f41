use vstd::prelude::*;
use crate::bitboard::{BitBoard, has_square, pop_count, lemma_count_run};
use crate::pieces::{PieceColor, PieceType};

verus! {

/// White pawns at the start: rank 2.
pub const WHITE_PAWN_START: u64 = 0x0000_0000_0000_ff00;
/// Black pawns at the start: rank 7.
pub const BLACK_PAWN_START: u64 = 0x00ff_0000_0000_0000;
/// White knights at the start: b1 and g1.
pub const WHITE_KNIGHT_START: u64 = 0x0000_0000_0000_0042;
/// Black knights at the start: b8 and g8.
pub const BLACK_KNIGHT_START: u64 = 0x4200_0000_0000_0000;
/// White bishops at the start: c1 and f1.
pub const WHITE_BISHOP_START: u64 = 0x0000_0000_0000_0024;
/// Black bishops at the start: c8 and f8.
pub const BLACK_BISHOP_START: u64 = 0x2400_0000_0000_0000;
/// White rooks at the start: a1 and h1.
pub const WHITE_ROOK_START: u64 = 0x0000_0000_0000_0081;
/// Black rooks at the start: a8 and h8.
pub const BLACK_ROOK_START: u64 = 0x8100_0000_0000_0000;
/// White queen at the start: d1.
pub const WHITE_QUEEN_START: u64 = 0x0000_0000_0000_0008;
/// Black queen at the start: d8.
pub const BLACK_QUEEN_START: u64 = 0x0800_0000_0000_0000;
/// White king at the start: e1.
pub const WHITE_KING_START: u64 = 0x0000_0000_0000_0010;
/// Black king at the start: e8.
pub const BLACK_KING_START: u64 = 0x1000_0000_0000_0000;

/// A chess position: one occupancy board for each piece kind of each side.
#[derive(Debug)]
pub struct GameState {
    pub white_pawn: BitBoard,
    pub black_pawn: BitBoard,
    pub white_knight: BitBoard,
    pub black_knight: BitBoard,
    pub white_bishop: BitBoard,
    pub black_bishop: BitBoard,
    pub white_rook: BitBoard,
    pub black_rook: BitBoard,
    pub white_queen: BitBoard,
    pub black_queen: BitBoard,
    pub white_king: BitBoard,
    pub black_king: BitBoard,
}

impl GameState {
    /// The board of the pieces of `kind` and `color`.
    pub open spec fn board_of(self, kind: PieceType, color: PieceColor) -> BitBoard {
        match (kind, color) {
            (PieceType::Pawn, PieceColor::White) => self.white_pawn,
            (PieceType::Pawn, PieceColor::Black) => self.black_pawn,
            (PieceType::Knight, PieceColor::White) => self.white_knight,
            (PieceType::Knight, PieceColor::Black) => self.black_knight,
            (PieceType::Bishop, PieceColor::White) => self.white_bishop,
            (PieceType::Bishop, PieceColor::Black) => self.black_bishop,
            (PieceType::Rook, PieceColor::White) => self.white_rook,
            (PieceType::Rook, PieceColor::Black) => self.black_rook,
            (PieceType::Queen, PieceColor::White) => self.white_queen,
            (PieceType::Queen, PieceColor::Black) => self.black_queen,
            (PieceType::King, PieceColor::White) => self.white_king,
            (PieceType::King, PieceColor::Black) => self.black_king,
        }
    }

    /// The union of the boards of all six kinds of `color`.
    pub open spec fn occupied_by(self, color: PieceColor) -> u64 {
        self.board_of(PieceType::Pawn, color).0
            | self.board_of(PieceType::Knight, color).0
            | self.board_of(PieceType::Bishop, color).0
            | self.board_of(PieceType::Rook, color).0
            | self.board_of(PieceType::Queen, color).0
            | self.board_of(PieceType::King, color).0
    }

    /// No square is claimed by two different (kind, color) entries.
    pub open spec fn disjoint(self) -> bool {
        forall|k1: PieceType, c1: PieceColor, k2: PieceType, c2: PieceColor|
            (k1, c1) != (k2, c2) ==> #[trigger] self.board_of(k1, c1).0 & #[trigger] self.board_of(
                k2,
                c2,
            ).0 == 0
    }

    /// The standard starting arrangement.
    pub open spec fn initial() -> GameState {
        GameState {
            white_pawn: BitBoard(WHITE_PAWN_START),
            black_pawn: BitBoard(BLACK_PAWN_START),
            white_knight: BitBoard(WHITE_KNIGHT_START),
            black_knight: BitBoard(BLACK_KNIGHT_START),
            white_bishop: BitBoard(WHITE_BISHOP_START),
            black_bishop: BitBoard(BLACK_BISHOP_START),
            white_rook: BitBoard(WHITE_ROOK_START),
            black_rook: BitBoard(BLACK_ROOK_START),
            white_queen: BitBoard(WHITE_QUEEN_START),
            black_queen: BitBoard(BLACK_QUEEN_START),
            white_king: BitBoard(WHITE_KING_START),
            black_king: BitBoard(BLACK_KING_START),
        }
    }

    /// The board of the pieces of `kind` and `color`.
    pub fn board(&self, kind: PieceType, color: PieceColor) -> (r: BitBoard)
        ensures
            r == self.board_of(kind, color),
    {
        match (kind, color) {
            (PieceType::Pawn, PieceColor::White) => self.white_pawn,
            (PieceType::Pawn, PieceColor::Black) => self.black_pawn,
            (PieceType::Knight, PieceColor::White) => self.white_knight,
            (PieceType::Knight, PieceColor::Black) => self.black_knight,
            (PieceType::Bishop, PieceColor::White) => self.white_bishop,
            (PieceType::Bishop, PieceColor::Black) => self.black_bishop,
            (PieceType::Rook, PieceColor::White) => self.white_rook,
            (PieceType::Rook, PieceColor::Black) => self.black_rook,
            (PieceType::Queen, PieceColor::White) => self.white_queen,
            (PieceType::Queen, PieceColor::Black) => self.black_queen,
            (PieceType::King, PieceColor::White) => self.white_king,
            (PieceType::King, PieceColor::Black) => self.black_king,
        }
    }

    /// Every square holding a piece of `color`.
    pub fn all_occupied_by(&self, color: PieceColor) -> (r: BitBoard)
        ensures
            r.0 == self.occupied_by(color),
    {
        self.board(PieceType::Pawn, color) | self.board(PieceType::Knight, color) | self.board(
            PieceType::Bishop,
            color,
        ) | self.board(PieceType::Rook, color) | self.board(PieceType::Queen, color) | self.board(
            PieceType::King,
            color,
        )
    }

    /// Every square holding a white piece.
    pub fn white_pieces(&self) -> (r: BitBoard)
        ensures
            r.0 == self.occupied_by(PieceColor::White),
            r.0 == self.white_pawn.0 | self.white_knight.0 | self.white_bishop.0 | self.white_rook.0
                | self.white_queen.0 | self.white_king.0,
    {
        self.white_pawn | self.white_knight | self.white_bishop | self.white_rook | self.white_queen
            | self.white_king
    }

    /// Every square holding a black piece.
    pub fn black_pieces(&self) -> (r: BitBoard)
        ensures
            r.0 == self.occupied_by(PieceColor::Black),
            r.0 == self.black_pawn.0 | self.black_knight.0 | self.black_bishop.0 | self.black_rook.0
                | self.black_queen.0 | self.black_king.0,
    {
        self.black_pawn | self.black_knight | self.black_bishop | self.black_rook | self.black_queen
            | self.black_king
    }
}

impl Default for GameState {
    /// The standard starting arrangement.
    fn default() -> (r: GameState)
        ensures
            r == GameState::initial(),
            r.disjoint(),
    {
        proof {
            lemma_initial_disjoint();
        }
        GameState {
            white_pawn: BitBoard(WHITE_PAWN_START),
            black_pawn: BitBoard(BLACK_PAWN_START),
            white_knight: BitBoard(WHITE_KNIGHT_START),
            black_knight: BitBoard(BLACK_KNIGHT_START),
            white_bishop: BitBoard(WHITE_BISHOP_START),
            black_bishop: BitBoard(BLACK_BISHOP_START),
            white_rook: BitBoard(WHITE_ROOK_START),
            black_rook: BitBoard(BLACK_ROOK_START),
            white_queen: BitBoard(WHITE_QUEEN_START),
            black_queen: BitBoard(BLACK_QUEEN_START),
            white_king: BitBoard(WHITE_KING_START),
            black_king: BitBoard(BLACK_KING_START),
        }
    }
}

/// The squares where pieces of `kind` start, on either side.
spec fn start_squares(kind: PieceType) -> u64 {
    match kind {
        PieceType::Pawn => 0x00ff_0000_0000_ff00u64,
        PieceType::Knight => 0x4200_0000_0000_0042u64,
        PieceType::Bishop => 0x2400_0000_0000_0024u64,
        PieceType::Rook => 0x8100_0000_0000_0081u64,
        PieceType::Queen => 0x0800_0000_0000_0008u64,
        PieceType::King => 0x1000_0000_0000_0010u64,
    }
}

/// The two ranks on which the pieces of `color` start.
spec fn home_ranks(color: PieceColor) -> u64 {
    match color {
        PieceColor::White => 0x0000_0000_0000_ffffu64,
        PieceColor::Black => 0xffff_0000_0000_0000u64,
    }
}

/// Each starting board is its kind's starting squares on its side's home ranks.
proof fn lemma_initial_boards(kind: PieceType, color: PieceColor)
    ensures
        GameState::initial().board_of(kind, color).0 == start_squares(kind) & home_ranks(color),
{
    let (w, b) = (0x0000_0000_0000_ffffu64, 0xffff_0000_0000_0000u64);
    assert(WHITE_PAWN_START == 0x00ff_0000_0000_ff00u64 & w
        && BLACK_PAWN_START == 0x00ff_0000_0000_ff00u64 & b
        && WHITE_KNIGHT_START == 0x4200_0000_0000_0042u64 & w
        && BLACK_KNIGHT_START == 0x4200_0000_0000_0042u64 & b
        && WHITE_BISHOP_START == 0x2400_0000_0000_0024u64 & w
        && BLACK_BISHOP_START == 0x2400_0000_0000_0024u64 & b
        && WHITE_ROOK_START == 0x8100_0000_0000_0081u64 & w
        && BLACK_ROOK_START == 0x8100_0000_0000_0081u64 & b
        && WHITE_QUEEN_START == 0x0800_0000_0000_0008u64 & w
        && BLACK_QUEEN_START == 0x0800_0000_0000_0008u64 & b
        && WHITE_KING_START == 0x1000_0000_0000_0010u64 & w
        && BLACK_KING_START == 0x1000_0000_0000_0010u64 & b)
        by (bit_vector)
        requires
            w == 0x0000_0000_0000_ffffu64,
            b == 0xffff_0000_0000_0000u64,
    ;
}

/// Different kinds start on different squares, and the two sides on different ranks.
proof fn lemma_start_masks_disjoint(k1: PieceType, c1: PieceColor, k2: PieceType, c2: PieceColor)
    requires
        (k1, c1) != (k2, c2),
    ensures
        start_squares(k1) & start_squares(k2) == 0 || home_ranks(c1) & home_ranks(c2) == 0,
{
    let (x, y) = (start_squares(k1), start_squares(k2));
    assert(x & y == y & x) by (bit_vector);
    assert(0x00ff_0000_0000_ff00u64 & 0x4200_0000_0000_0042u64 == 0
        && 0x00ff_0000_0000_ff00u64 & 0x2400_0000_0000_0024u64 == 0
        && 0x00ff_0000_0000_ff00u64 & 0x8100_0000_0000_0081u64 == 0
        && 0x00ff_0000_0000_ff00u64 & 0x0800_0000_0000_0008u64 == 0
        && 0x00ff_0000_0000_ff00u64 & 0x1000_0000_0000_0010u64 == 0
        && 0x4200_0000_0000_0042u64 & 0x2400_0000_0000_0024u64 == 0
        && 0x4200_0000_0000_0042u64 & 0x8100_0000_0000_0081u64 == 0
        && 0x4200_0000_0000_0042u64 & 0x0800_0000_0000_0008u64 == 0
        && 0x4200_0000_0000_0042u64 & 0x1000_0000_0000_0010u64 == 0
        && 0x2400_0000_0000_0024u64 & 0x8100_0000_0000_0081u64 == 0
        && 0x2400_0000_0000_0024u64 & 0x0800_0000_0000_0008u64 == 0
        && 0x2400_0000_0000_0024u64 & 0x1000_0000_0000_0010u64 == 0
        && 0x8100_0000_0000_0081u64 & 0x0800_0000_0000_0008u64 == 0
        && 0x8100_0000_0000_0081u64 & 0x1000_0000_0000_0010u64 == 0
        && 0x0800_0000_0000_0008u64 & 0x1000_0000_0000_0010u64 == 0)
        by (bit_vector);
    assert(0x0000_0000_0000_ffffu64 & 0xffff_0000_0000_0000u64 == 0
        && 0xffff_0000_0000_0000u64 & 0x0000_0000_0000_ffffu64 == 0) by (bit_vector);
}

/// Masking two words with masks that share no bit, or masking two words
/// that share no bit, leaves nothing in common.
proof fn lemma_masked_disjoint(a: u64, b: u64, x: u64, y: u64)
    requires
        a & b == 0 || x & y == 0,
    ensures
        (a & x) & (b & y) == 0,
{
    assert((a & b == 0 || x & y == 0) ==> (a & x) & (b & y) == 0) by (bit_vector);
}

/// In the starting arrangement no square is claimed by two different
/// (kind, color) entries.
pub proof fn lemma_initial_disjoint()
    ensures
        GameState::initial().disjoint(),
{
    let g = GameState::initial();
    assert forall|k1: PieceType, c1: PieceColor, k2: PieceType, c2: PieceColor|
        (k1, c1) != (k2, c2) implies #[trigger] g.board_of(k1, c1).0
        & #[trigger] g.board_of(k2, c2).0 == 0 by {
        lemma_initial_boards(k1, c1);
        lemma_initial_boards(k2, c2);
        lemma_start_masks_disjoint(k1, c1, k2, c2);
        lemma_masked_disjoint(start_squares(k1), start_squares(k2), home_ranks(c1), home_ranks(c2));
    }
}

/// In the starting arrangement each side holds its first two ranks: sixteen
/// squares, the union of its six piece boards.
pub proof fn lemma_initial_occupancy()
    ensures
        GameState::initial().occupied_by(PieceColor::White) == 0x0000_0000_0000_ffffu64,
        GameState::initial().occupied_by(PieceColor::Black) == 0xffff_0000_0000_0000u64,
        pop_count(GameState::initial().occupied_by(PieceColor::White)) == 16,
        pop_count(GameState::initial().occupied_by(PieceColor::Black)) == 16,
{
    assert(WHITE_PAWN_START | WHITE_KNIGHT_START | WHITE_BISHOP_START | WHITE_ROOK_START
        | WHITE_QUEEN_START | WHITE_KING_START == 0x0000_0000_0000_ffffu64) by (bit_vector);
    assert(BLACK_PAWN_START | BLACK_KNIGHT_START | BLACK_BISHOP_START | BLACK_ROOK_START
        | BLACK_QUEEN_START | BLACK_KING_START == 0xffff_0000_0000_0000u64) by (bit_vector);
    assert forall|j: u64| 0 <= j < 64 implies (has_square(0x0000_0000_0000_ffffu64, j) <==> 0 <= j
        < 16) by {
        assert(j < 64 ==> ((0x0000_0000_0000_ffffu64 >> j) & 1u64 == 1u64 <==> j < 16))
            by (bit_vector);
    }
    assert forall|j: u64| 0 <= j < 64 implies (has_square(0xffff_0000_0000_0000u64, j) <==> 48
        <= j < 64) by {
        assert(j < 64 ==> ((0xffff_0000_0000_0000u64 >> j) & 1u64 == 1u64 <==> 48 <= j))
            by (bit_vector);
    }
    lemma_count_run(0x0000_0000_0000_ffffu64, 0, 0, 16);
    lemma_count_run(0xffff_0000_0000_0000u64, 0, 48, 64);
}

} // verus!
