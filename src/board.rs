use vstd::prelude::*;
use crate::piece::{Color, Piece, PieceType};

verus! {

/// A square as (row, column).
pub type Square = (usize, usize);

/// A move as (from, to).
pub type Move = (Square, Square);

/// The position: an 8x8 grid indexed `[row][column]` (row 0 is White's back
/// rank), the half-move clock, castling rights per side as
/// (queenside, kingside), and the square that a pawn passed over on the last
/// move, if that move was a two-square advance.
#[derive(Clone, Copy, Debug)]
pub struct Board {
    pub squares: [[Option<Piece>; 8]; 8],
    pub half_move_clock: u32,
    pub white_castle_possible: (bool, bool),
    pub black_castle_possible: (bool, bool),
    pub en_passant_target: Option<Square>,
}

pub open spec fn in_bounds(r: int, c: int) -> bool {
    0 <= r < 8 && 0 <= c < 8
}

/// The back rank of `color`.
pub open spec fn home_row(color: Color) -> int {
    match color {
        Color::White => 0,
        Color::Black => 7,
    }
}

/// The row a pawn of `color` starts on.
pub open spec fn pawn_start_row(color: Color) -> int {
    match color {
        Color::White => 1,
        Color::Black => 6,
    }
}

/// The row step of a pawn of `color`.
pub open spec fn pawn_dir(color: Color) -> int {
    match color {
        Color::White => 1,
        Color::Black => -1,
    }
}

/// The piece kind standing on column `c` of a back rank at the start.
pub open spec fn back_rank_kind(c: int) -> PieceType {
    if c == 0 || c == 7 {
        PieceType::Rook
    } else if c == 1 || c == 6 {
        PieceType::Knight
    } else if c == 2 || c == 5 {
        PieceType::Bishop
    } else if c == 3 {
        PieceType::Queen
    } else {
        PieceType::King
    }
}

/// What stands on (r, c) in the starting position.
pub open spec fn initial_piece(r: int, c: int) -> Option<Piece> {
    if r == 0 {
        Some(Piece { color: Color::White, kind: back_rank_kind(c) })
    } else if r == 1 {
        Some(Piece { color: Color::White, kind: PieceType::Pawn })
    } else if r == 6 {
        Some(Piece { color: Color::Black, kind: PieceType::Pawn })
    } else if r == 7 {
        Some(Piece { color: Color::Black, kind: back_rank_kind(c) })
    } else {
        None
    }
}

/// One square further from zero along a direction of sign `d`, `k` times.
pub open spec fn step(x: int, d: int, k: int) -> int {
    if d > 0 {
        x + k
    } else if d < 0 {
        x - k
    } else {
        x
    }
}

impl Board {
    pub open spec fn at(self, r: int, c: int) -> Option<Piece> {
        self.squares[r][c]
    }

    pub open spec fn is_empty_at(self, r: int, c: int) -> bool {
        self.at(r, c).is_none()
    }

    pub open spec fn is_own(self, r: int, c: int, color: Color) -> bool {
        match self.at(r, c) {
            Some(p) => p.color == color,
            None => false,
        }
    }

    pub open spec fn is_enemy(self, r: int, c: int, color: Color) -> bool {
        match self.at(r, c) {
            Some(p) => p.color != color,
            None => false,
        }
    }

    /// A piece of `color` may end a move on (r, c): on the board and not
    /// occupied by its own side.
    pub open spec fn can_land(self, r: int, c: int, color: Color) -> bool {
        in_bounds(r, c) && !self.is_own(r, c, color)
    }

    pub open spec fn has_piece(self, r: int, c: int, color: Color, kind: PieceType) -> bool {
        self.at(r, c) == Some(Piece { color, kind })
    }

    pub open spec fn is_ep_target(self, r: int, c: int) -> bool {
        match self.en_passant_target {
            Some(t) => t.0 == r && t.1 == c,
            None => false,
        }
    }

    /// The castling right of `color` on the given wing.
    pub open spec fn castle_right(self, color: Color, kingside: bool) -> bool {
        let rights = match color {
            Color::White => self.white_castle_possible,
            Color::Black => self.black_castle_possible,
        };
        if kingside {
            rights.1
        } else {
            rights.0
        }
    }

    /// The same board with (r, c) holding `p`.
    pub open spec fn set_sq(self, r: int, c: int, p: Option<Piece>) -> Board {
        Board {
            squares: vstd::array::spec_array_update(
                self.squares,
                r,
                vstd::array::spec_array_update(self.squares[r], c, p),
            ),
            ..self
        }
    }

    pub open spec fn is_initial(self) -> bool {
        &&& forall|r: int, c: int| in_bounds(r, c) ==> #[trigger] self.at(r, c) == initial_piece(r, c)
        &&& self.half_move_clock == 0
        &&& self.white_castle_possible == (true, true)
        &&& self.black_castle_possible == (true, true)
        &&& self.en_passant_target.is_none()
    }

    /// The canonical starting position.
    pub fn new() -> (r: Board)
        ensures
            r.is_initial(),
    {
        let empty: [Option<Piece>; 8] = [None, None, None, None, None, None, None, None];
        let squares: [[Option<Piece>; 8]; 8] = [
            back_rank(Color::White),
            pawn_rank(Color::White),
            empty,
            empty,
            empty,
            empty,
            pawn_rank(Color::Black),
            back_rank(Color::Black),
        ];
        let b = Board {
            squares,
            half_move_clock: 0,
            white_castle_possible: (true, true),
            black_castle_possible: (true, true),
            en_passant_target: None,
        };
        assert forall|r: int, c: int| in_bounds(r, c) implies #[trigger] b.at(r, c) == initial_piece(r, c) by {
            assert(0 <= c < 8);
        }
        b
    }
}

fn back_rank(color: Color) -> (r: [Option<Piece>; 8])
    ensures
        forall|c: int| 0 <= c < 8 ==> #[trigger] r[c] == Some(Piece { color, kind: back_rank_kind(c) }),
{
    let rook = Some(Piece { color, kind: PieceType::Rook });
    let knight = Some(Piece { color, kind: PieceType::Knight });
    let bishop = Some(Piece { color, kind: PieceType::Bishop });
    let queen = Some(Piece { color, kind: PieceType::Queen });
    let king = Some(Piece { color, kind: PieceType::King });
    [rook, knight, bishop, queen, king, bishop, knight, rook]
}

fn pawn_rank(color: Color) -> (r: [Option<Piece>; 8])
    ensures
        forall|c: int| 0 <= c < 8 ==> #[trigger] r[c] == Some(Piece { color, kind: PieceType::Pawn }),
{
    let p = Some(Piece { color, kind: PieceType::Pawn });
    [p, p, p, p, p, p, p, p]
}

} // verus!
