use vstd::prelude::*;
use vstd::string::*;

verus! {

/// Side a piece belongs to.
#[derive(Clone, Copy, Debug, PartialEq, Eq, Structural)]
pub enum PieceColor {
    White,
    Black,
}

/// Kind of a chess piece.
#[derive(Clone, Copy, Debug, PartialEq, Eq, Structural)]
pub enum PieceType {
    Pawn,
    Knight,
    Bishop,
    Rook,
    Queen,
    King,
}

/// Letter that names `color` in an image file name.
pub open spec fn color_code(color: PieceColor) -> Seq<char> {
    match color {
        PieceColor::White => "w"@,
        PieceColor::Black => "b"@,
    }
}

/// Word that names `kind` in an image file name.
pub open spec fn kind_name(kind: PieceType) -> Seq<char> {
    match kind {
        PieceType::Pawn => "pawn"@,
        PieceType::Knight => "knight"@,
        PieceType::Bishop => "bishop"@,
        PieceType::Rook => "rook"@,
        PieceType::Queen => "queen"@,
        PieceType::King => "king"@,
    }
}

/// Path, under the asset directory, of the image of a piece of `kind` and `color`.
pub open spec fn image_path(kind: PieceType, color: PieceColor) -> Seq<char> {
    "pieces/01_classic/"@ + color_code(color) + "-"@ + kind_name(kind) + ".png"@
}

/// Path, under the asset directory, of the image of a piece of `kind` and `color`
/// (for instance "pieces/01_classic/w-pawn.png").
pub fn piece_image_path(kind: PieceType, color: PieceColor) -> (r: String)
    ensures
        r@ == image_path(kind, color),
{
    let mut path = String::from_str("pieces/01_classic/");
    match color {
        PieceColor::White => path.append("w"),
        PieceColor::Black => path.append("b"),
    }
    path.append("-");
    match kind {
        PieceType::Pawn => path.append("pawn"),
        PieceType::Knight => path.append("knight"),
        PieceType::Bishop => path.append("bishop"),
        PieceType::Rook => path.append("rook"),
        PieceType::Queen => path.append("queen"),
        PieceType::King => path.append("king"),
    }
    path.append(".png");
    path
}

} // verus!
