use vstd::prelude::*;

verus! {

/// The two sides of a game.
#[derive(Clone, Copy, PartialEq, Eq, Structural, Debug)]
pub enum Color {
    White,
    Black,
}

/// The six kinds of chess pieces.
#[derive(Clone, Copy, PartialEq, Eq, Structural, Debug)]
pub enum PieceType {
    King,
    Queen,
    Rook,
    Bishop,
    Knight,
    Pawn,
}

/// A piece on the board: its side and its kind.
#[derive(Clone, Copy, PartialEq, Eq, Structural, Debug)]
pub struct Piece {
    pub color: Color,
    pub kind: PieceType,
}

pub open spec fn opposite_spec(color: Color) -> Color {
    match color {
        Color::White => Color::Black,
        Color::Black => Color::White,
    }
}

/// The side that is not `color`.
pub fn opposite_color(color: Color) -> (r: Color)
    ensures
        r == opposite_spec(color),
        r != color,
{
    match color {
        Color::White => Color::Black,
        Color::Black => Color::White,
    }
}

pub open spec fn name_spec(kind: PieceType) -> &'static str {
    match kind {
        PieceType::King => "King",
        PieceType::Queen => "Queen",
        PieceType::Rook => "Rook",
        PieceType::Knight => "Knight",
        PieceType::Bishop => "Bishop",
        PieceType::Pawn => "Pawn",
    }
}

impl PieceType {
    /// The English name of the piece kind.
    pub fn get_name(&self) -> (r: &'static str)
        ensures
            r == name_spec(*self),
    {
        match *self {
            PieceType::King => "King",
            PieceType::Queen => "Queen",
            PieceType::Rook => "Rook",
            PieceType::Knight => "Knight",
            PieceType::Bishop => "Bishop",
            PieceType::Pawn => "Pawn",
        }
    }
}

/// Material value of a piece kind, in centipawns.
pub open spec fn value_spec(kind: PieceType) -> int {
    match kind {
        PieceType::Pawn => 100,
        PieceType::Knight => 320,
        PieceType::Bishop => 330,
        PieceType::Rook => 500,
        PieceType::Queen => 900,
        PieceType::King => 20000,
    }
}

/// Material value of a piece, in centipawns.
pub fn get_piece_value(piece: &Piece) -> (r: i32)
    ensures
        r == value_spec(piece.kind),
        100 <= r <= 20000,
{
    match piece.kind {
        PieceType::Pawn => 100,
        PieceType::Knight => 320,
        PieceType::Bishop => 330,
        PieceType::Rook => 500,
        PieceType::Queen => 900,
        PieceType::King => 20000,
    }
}

} // verus!
