use vstd::prelude::*;
use crate::piece::{Color, Piece, PieceType, opposite_color, opposite_spec};
use crate::board::{Board, Move, Square, in_bounds, home_row};
use crate::moves::{push_move, rook_home_col};

verus! {

/// The half-move clock after a quiet move; it stops at its largest value.
pub open spec fn clock_after_quiet(clock: u32) -> u32 {
    if clock < u32::MAX {
        (clock + 1) as u32
    } else {
        clock
    }
}

/// The square that a king that castles passes over, given where it lands.
pub open spec fn castle_pass_col(to_col: int) -> int {
    if to_col == 6 {
        5
    } else {
        3
    }
}

/// The column a castling rook ends on, given where the king lands.
pub open spec fn rook_castled_col(to_col: int) -> int {
    if to_col == 6 {
        5
    } else {
        3
    }
}

impl Board {
    /// A piece of color `by` on the board can move to (r, c), king safety
    /// aside.
    pub open spec fn attacked_by(self, r: int, c: int, by: Color) -> bool {
        exists|r2: int, c2: int|
            in_bounds(r2, c2) && self.is_own(r2, c2, by) && #[trigger] self.pseudo_target(r2, c2, r, c)
    }

    /// The first king of `color` in row-major order from square index `i`.
    pub open spec fn king_from(self, color: Color, i: int) -> Option<(int, int)>
        decreases 64 - i,
    {
        if i < 0 || i >= 64 {
            None
        } else if self.has_piece(i / 8, i % 8, color, PieceType::King) {
            Some((i / 8, i % 8))
        } else {
            self.king_from(color, i + 1)
        }
    }

    pub open spec fn king_square(self, color: Color) -> Option<(int, int)> {
        self.king_from(color, 0)
    }

    /// The king of `color` stands on a square that the other side attacks; a
    /// side without a king is never in check.
    pub open spec fn in_check(self, color: Color) -> bool {
        match self.king_square(color) {
            Some(k) => self.attacked_by(k.0, k.1, opposite_spec(color)),
            None => false,
        }
    }

    /// Castling from `(fr, fc)` to `(tr, tc)` is allowed: it is ready, and
    /// neither the king's square, nor the square it passes, nor the square it
    /// lands on is attacked.
    pub open spec fn castle_safe(self, fr: int, fc: int, tr: int, tc: int) -> bool {
        &&& self.castle_ready(fr, fc, tr, tc)
        &&& match self.at(fr, fc) {
            Some(k) => {
                &&& !self.attacked_by(fr, 4, opposite_spec(k.color))
                &&& !self.attacked_by(fr, castle_pass_col(tc), opposite_spec(k.color))
                &&& !self.attacked_by(fr, tc, opposite_spec(k.color))
            },
            None => false,
        }
    }

    /// The castling rights of `color` both cleared.
    pub open spec fn without_rights(self, color: Color) -> Board {
        match color {
            Color::White => Board { white_castle_possible: (false, false), ..self },
            Color::Black => Board { black_castle_possible: (false, false), ..self },
        }
    }

    /// King and rook of the side on `row` moved for castling towards column
    /// `tc`, with that side's rights cleared.
    pub open spec fn castled(self, row: int, tc: int) -> Board {
        let king = self.at(row, 4);
        let rook = self.at(row, rook_home_col(tc));
        let b = self.set_sq(row, 4, None).set_sq(row, tc, king).set_sq(row, rook_home_col(tc), None).set_sq(
            row,
            rook_castled_col(tc),
            rook,
        );
        match king {
            Some(k) => b.without_rights(k.color),
            None => b,
        }
    }

    /// The right of side `side` on one wing is lost by this move: its king
    /// moves, its rook leaves that wing's home square, or something lands
    /// there.
    pub open spec fn right_lost(side: Color, kingside: bool, p: Piece, fr: int, fc: int, tr: int, tc: int) -> bool {
        let rook_col = if kingside {
            7int
        } else {
            0int
        };
        ||| p.color == side && p.kind == PieceType::King
        ||| p.color == side && p.kind == PieceType::Rook && fr == home_row(side) && fc == rook_col
        ||| tr == home_row(side) && tc == rook_col
    }

    pub open spec fn rights_after(
        rights: (bool, bool),
        side: Color,
        p: Piece,
        fr: int,
        fc: int,
        tr: int,
        tc: int,
    ) -> (bool, bool) {
        (
            rights.0 && !Self::right_lost(side, false, p, fr, fc, tr, tc),
            rights.1 && !Self::right_lost(side, true, p, fr, fc, tr, tc),
        )
    }

    /// The position after the piece `p` on (fr, fc) moves to (tr, tc)
    /// without castling.
    pub open spec fn moved(self, fr: int, fc: int, tr: int, tc: int, p: Piece) -> Board {
        let is_pawn = p.kind == PieceType::Pawn;
        let resets = is_pawn || self.at(tr, tc).is_some();
        let b1 = self.set_sq(fr, fc, None);
        let b2 = if resets && self.is_ep_target(tr, tc) {
            b1.set_sq(fr, tc, None)
        } else {
            b1
        };
        let placed = if is_pawn && (tr == 0 || tr == 7) {
            Piece { color: p.color, kind: PieceType::Queen }
        } else {
            p
        };
        let b3 = b2.set_sq(tr, tc, Some(placed));
        Board {
            half_move_clock: if resets {
                0
            } else {
                clock_after_quiet(self.half_move_clock)
            },
            white_castle_possible: Self::rights_after(self.white_castle_possible, Color::White, p, fr, fc, tr, tc),
            black_castle_possible: Self::rights_after(self.black_castle_possible, Color::Black, p, fr, fc, tr, tc),
            en_passant_target: if is_pawn && (tr - fr == 2 || fr - tr == 2) {
                Some((((fr + tr) / 2) as usize, fc as usize))
            } else {
                None
            },
            ..b3
        }
    }

    /// The position after move `m`: a castle when castling is allowed,
    /// otherwise the piece on the origin moves (nothing happens when the
    /// origin is empty).
    pub open spec fn apply_spec(self, m: Move) -> Board {
        let (fr, fc, tr, tc) = (m.0.0 as int, m.0.1 as int, m.1.0 as int, m.1.1 as int);
        if self.castle_safe(fr, fc, tr, tc) {
            Board {
                half_move_clock: clock_after_quiet(self.half_move_clock),
                en_passant_target: None,
                ..self.castled(fr, tc)
            }
        } else {
            match self.at(fr, fc) {
                Some(p) => self.moved(fr, fc, tr, tc, p),
                None => self,
            }
        }
    }

    /// `m` is a move that the rules allow for the piece it moves: a castle
    /// that is allowed, or a move of the piece that does not take a piece of
    /// its own side, and after which its own king is not in check.
    pub open spec fn valid_move(self, m: Move) -> bool {
        let (fr, fc, tr, tc) = (m.0.0 as int, m.0.1 as int, m.1.0 as int, m.1.1 as int);
        &&& m.0 != m.1
        &&& in_bounds(fr, fc)
        &&& in_bounds(tr, tc)
        &&& match self.at(fr, fc) {
            Some(p) => {
                &&& if self.castle_ready(fr, fc, tr, tc) {
                    self.castle_safe(fr, fc, tr, tc)
                } else {
                    !self.is_own(tr, tc, p.color) && self.pseudo_target(fr, fc, tr, tc)
                }
                &&& !self.apply_spec(m).in_check(p.color)
            },
            None => false,
        }
    }

    /// `m` is a legal move for `color`.
    pub open spec fn legal_move(self, color: Color, m: Move) -> bool {
        self.is_own(m.0.0 as int, m.0.1 as int, color) && self.valid_move(m)
    }

    pub open spec fn has_legal_move(self, color: Color) -> bool {
        exists|m: Move| #[trigger] self.legal_move(color, m)
    }

    pub open spec fn checkmate(self, color: Color) -> bool {
        self.in_check(color) && !self.has_legal_move(color)
    }

    pub open spec fn stalemate(self, color: Color) -> bool {
        !self.in_check(color) && !self.has_legal_move(color)
    }
}


/// Turns an optional square into a pair of mathematical integers.
pub open spec fn square_of(s: Option<Square>) -> Option<(int, int)> {
    match s {
        Some(q) => Some((q.0 as int, q.1 as int)),
        None => None,
    }
}

/// Whether some move in `moves` ends on (row, col).
fn lands_on(moves: &Vec<Move>, row: usize, col: usize) -> (r: bool)
    ensures
        r == exists|i: int| 0 <= i < moves@.len() && #[trigger] moves@[i].1 == (row, col),
{
    let mut i: usize = 0;
    while i < moves.len()
        invariant
            i <= moves@.len(),
            forall|j: int| 0 <= j < i ==> #[trigger] moves@[j].1 != (row, col),
        decreases moves@.len() - i,
    {
        let to = moves[i].1;
        if to.0 == row && to.1 == col {
            return true;
        }
        i = i + 1;
    }
    false
}

/// Whether `moves` holds `m`.
fn holds_move(moves: &Vec<Move>, m: Move) -> (r: bool)
    ensures
        r == moves@.contains(m),
{
    let mut i: usize = 0;
    while i < moves.len()
        invariant
            i <= moves@.len(),
            forall|j: int| 0 <= j < i ==> #[trigger] moves@[j] != m,
        decreases moves@.len() - i,
    {
        let x = moves[i];
        if x.0.0 == m.0.0 && x.0.1 == m.0.1 && x.1.0 == m.1.0 && x.1.1 == m.1.1 {
            assert(moves@[i as int] == m);
            return true;
        }
        i = i + 1;
    }
    false
}

impl Board {
    /// Whether a piece of the side opposite to `color` can move to
    /// (row, col), king safety aside.
    pub fn is_square_under_attack(&self, row: usize, col: usize, color: Color) -> (r: bool)
        ensures
            r == self.attacked_by(row as int, col as int, opposite_spec(color)),
    {
        let opponent = opposite_color(color);
        let mut r2: usize = 0;
        while r2 < 8
            invariant
                r2 <= 8,
                opponent == opposite_spec(color),
                forall|a: int, b: int|
                    0 <= a < r2 && 0 <= b < 8 && self.is_own(a, b, opponent) ==> !#[trigger] self.pseudo_target(
                        a,
                        b,
                        row as int,
                        col as int,
                    ),
            decreases 8 - r2,
        {
            let mut c2: usize = 0;
            while c2 < 8
                invariant
                    r2 < 8,
                    c2 <= 8,
                    opponent == opposite_spec(color),
                    forall|a: int, b: int|
                        ((0 <= a < r2 && 0 <= b < 8) || (a == r2 && 0 <= b < c2)) && self.is_own(a, b, opponent)
                            ==> !#[trigger] self.pseudo_target(a, b, row as int, col as int),
                decreases 8 - c2,
            {
                let own = match self.squares[r2][c2] {
                    Some(p) => p.color == opponent,
                    None => false,
                };
                if own {
                    let moves = self.generate_moves_for_piece(r2, c2);
                    let hit = lands_on(&moves, row, col);
                    let ghost target: Move = ((r2, c2), (row, col));
                    if hit {
                        proof {
                            let i = choose|i: int| 0 <= i < moves@.len() && #[trigger] moves@[i].1 == (row, col);
                            assert(moves@.contains(moves@[i]));
                            assert(moves@[i] == target);
                            assert(self.pseudo_target(r2 as int, c2 as int, row as int, col as int));
                        }
                        return true;
                    }
                    proof {
                        if self.pseudo_target(r2 as int, c2 as int, row as int, col as int) {
                            assert(self.pseudo_move(target));
                            assert(moves@.contains(target));
                            let i = choose|i: int| 0 <= i < moves@.len() && moves@[i] == target;
                            assert(moves@[i].1 == (row, col));
                        }
                    }
                }
                c2 = c2 + 1;
            }
            r2 = r2 + 1;
        }
        false
    }

    /// The square of the first king of `color` in row-major order.
    pub fn find_king(&self, color: Color) -> (r: Option<Square>)
        ensures
            square_of(r) == self.king_square(color),
            r matches Some(s) ==> s.0 < 8 && s.1 < 8,
    {
        let mut i: usize = 0;
        while i < 64
            invariant
                i <= 64,
                self.king_from(color, 0) == self.king_from(color, i as int),
            decreases 64 - i,
        {
            let row = i / 8;
            let col = i % 8;
            match self.squares[row][col] {
                Some(p) => {
                    if p.kind == PieceType::King && p.color == color {
                        return Some((row, col));
                    }
                },
                None => {},
            }
            i = i + 1;
        }
        None
    }

    /// Whether the king of `color` is attacked; false when `color` has no
    /// king.
    pub fn is_in_check(&self, color: Color) -> (r: bool)
        ensures
            r == self.in_check(color),
    {
        match self.find_king(color) {
            Some((row, col)) => self.is_square_under_attack(row, col, color),
            None => false,
        }
    }

    /// Whether `from` to `to` has the shape of a castle by `color`: its king
    /// on column 4 moving to column 2 or 6 of the same row.
    fn is_castling_move(&self, from: Square, to: Square, color: Color) -> (r: bool)
        requires
            from.0 < 8,
            from.1 < 8,
        ensures
            r == (from.0 == to.0 && from.1 == 4 && (to.1 == 2 || to.1 == 6) && self.has_piece(
                from.0 as int,
                from.1 as int,
                color,
                PieceType::King,
            )),
    {
        if from.0 != to.0 || from.1 != 4 || (to.1 != 2 && to.1 != 6) {
            return false;
        }
        match self.squares[from.0][from.1] {
            Some(k) => k.color == color && k.kind == PieceType::King,
            None => false,
        }
    }

    /// Whether castling from `from` to `to` is allowed, attacks included.
    pub fn can_castle(&self, from: Square, to: Square) -> (r: bool)
        ensures
            r == self.castle_safe(from.0 as int, from.1 as int, to.0 as int, to.1 as int),
    {
        if !self.can_castle_unsafe(from, to) {
            return false;
        }
        let color = match self.squares[from.0][from.1] {
            Some(k) => k.color,
            None => {
                return false;
            },
        };
        let row = from.0;
        let pass: usize = if to.1 == 6 {
            5
        } else {
            3
        };
        !self.is_square_under_attack(row, 4, color) && !self.is_square_under_attack(row, pass, color)
            && !self.is_square_under_attack(row, to.1, color)
    }

    /// Moves king and rook for a castle from (row, 4) towards `to_col` and
    /// clears that side's rights.
    fn do_castle(&mut self, row: usize, to_col: usize)
        requires
            row < 8,
            to_col == 2 || to_col == 6,
        ensures
            *final(self) == old(self).castled(row as int, to_col as int),
    {
        let rook_col: usize = if to_col == 6 {
            7
        } else {
            0
        };
        let new_rook_col: usize = if to_col == 6 {
            5
        } else {
            3
        };
        let king = self.squares[row][4];
        let rook = self.squares[row][rook_col];
        self.squares[row][4] = None;
        self.squares[row][to_col] = king;
        self.squares[row][rook_col] = None;
        self.squares[row][new_rook_col] = rook;
        match king {
            Some(k) => match k.color {
                Color::White => {
                    self.white_castle_possible = (false, false);
                },
                Color::Black => {
                    self.black_castle_possible = (false, false);
                },
            },
            None => {},
        }
    }

    /// Castles from `from` to `to` when that is allowed, and says whether it
    /// did; otherwise the board is left as it is.
    pub fn castle(&mut self, from: Square, to: Square) -> (r: bool)
        ensures
            r == old(self).castle_safe(from.0 as int, from.1 as int, to.0 as int, to.1 as int),
            r ==> *final(self) == old(self).castled(from.0 as int, to.1 as int),
            !r ==> *final(self) == *old(self),
    {
        if !self.can_castle(from, to) {
            return false;
        }
        self.do_castle(from.0, to.1);
        true
    }
}

fn right_lost_exec(side: Color, kingside: bool, p: Piece, fr: usize, fc: usize, tr: usize, tc: usize) -> (r: bool)
    ensures
        r == Board::right_lost(side, kingside, p, fr as int, fc as int, tr as int, tc as int),
{
    let rook_col: usize = if kingside {
        7
    } else {
        0
    };
    let home: usize = match side {
        Color::White => 0,
        Color::Black => 7,
    };
    (p.color == side && p.kind == PieceType::King) || (p.color == side && p.kind == PieceType::Rook && fr
        == home && fc == rook_col) || (tr == home && tc == rook_col)
}

fn rights_after_exec(
    rights: (bool, bool),
    side: Color,
    p: Piece,
    fr: usize,
    fc: usize,
    tr: usize,
    tc: usize,
) -> (r: (bool, bool))
    ensures
        r == Board::rights_after(rights, side, p, fr as int, fc as int, tr as int, tc as int),
{
    (
        rights.0 && !right_lost_exec(side, false, p, fr, fc, tr, tc),
        rights.1 && !right_lost_exec(side, true, p, fr, fc, tr, tc),
    )
}

impl Board {
    /// Plays `m`: a castle when castling from `m.0` to `m.1` is allowed;
    /// otherwise the piece on `m.0` moves to `m.1`, taking what stands there
    /// (or the pawn passed by en passant), becoming a queen when a pawn
    /// reaches the last row, updating the half-move clock, the castling
    /// rights and the en-passant square. An empty origin changes nothing.
    pub fn apply_move(&mut self, m: Move)
        requires
            m.0.0 < 8,
            m.0.1 < 8,
            m.1.0 < 8,
            m.1.1 < 8,
        ensures
            *final(self) == old(self).apply_spec(m),
    {
        let ((fr, fc), (tr, tc)) = m;
        if self.can_castle((fr, fc), (tr, tc)) {
            self.do_castle(fr, tc);
            if self.half_move_clock < u32::MAX {
                self.half_move_clock = self.half_move_clock + 1;
            }
            self.en_passant_target = None;
            return;
        }
        if let Some(piece) = self.squares[fr][fc] {
            let is_pawn = piece.kind == PieceType::Pawn;
            let resets = is_pawn || self.squares[tr][tc].is_some();
            let ep_hit = match self.en_passant_target {
                Some(t) => t.0 == tr && t.1 == tc,
                None => false,
            };
            let white = self.white_castle_possible;
            let black = self.black_castle_possible;
            self.squares[fr][fc] = None;
            if resets && ep_hit {
                self.squares[fr][tc] = None;
            }
            let placed = if is_pawn && (tr == 0 || tr == 7) {
                Piece { color: piece.color, kind: PieceType::Queen }
            } else {
                piece
            };
            self.squares[tr][tc] = Some(placed);
            if resets {
                self.half_move_clock = 0;
            } else if self.half_move_clock < u32::MAX {
                self.half_move_clock = self.half_move_clock + 1;
            }
            self.white_castle_possible = rights_after_exec(white, Color::White, piece, fr, fc, tr, tc);
            self.black_castle_possible = rights_after_exec(black, Color::Black, piece, fr, fc, tr, tc);
            self.en_passant_target = if is_pawn && (tr == fr + 2 || fr == tr + 2) {
                Some(((fr + tr) / 2, fc))
            } else {
                None
            };
        }
    }

    /// Whether moving from `from` to `to` is allowed: both on the board and
    /// distinct, a piece on `from`, either an allowed castle or a move of that
    /// piece that does not take its own side, and its king not in check
    /// afterwards.
    pub fn is_valid_move(&self, from: Square, to: Square) -> (r: bool)
        ensures
            r == self.valid_move((from, to)),
    {
        if (from.0 == to.0 && from.1 == to.1) || from.0 >= 8 || from.1 >= 8 || to.0 >= 8 || to.1 >= 8 {
            return false;
        }
        let piece = match self.squares[from.0][from.1] {
            Some(p) => p,
            None => {
                return false;
            },
        };
        if self.is_castling_move(from, to, piece.color) {
            if !self.can_castle(from, to) {
                return false;
            }
        } else {
            assert(!self.castle_ready(from.0 as int, from.1 as int, to.0 as int, to.1 as int));
            if let Some(target) = self.squares[to.0][to.1] {
                if target.color == piece.color {
                    return false;
                }
            }
            let moves = self.generate_moves_for_piece(from.0, from.1);
            if !holds_move(&moves, (from, to)) {
                return false;
            }
        }
        let mut simulated = *self;
        simulated.apply_move((from, to));
        !simulated.is_in_check(piece.color)
    }

    /// The legal moves of `color`.
    pub fn generate_legal_moves(&self, color: Color) -> (r: Vec<Move>)
        ensures
            r@.no_duplicates(),
            forall|m: Move| #[trigger] r@.contains(m) <==> self.legal_move(color, m),
            forall|m: Move| #[trigger] r@.contains(m) ==> !self.apply_spec(m).in_check(color),
    {
        let all = self.generate_all_moves(color);
        let mut legal: Vec<Move> = Vec::new();
        let mut i: usize = 0;
        while i < all.len()
            invariant
                i <= all@.len(),
                all@.no_duplicates(),
                legal@.no_duplicates(),
                forall|m: Move| #[trigger] all@.contains(m) <==> self.pseudo_move_of(color, m),
                forall|m: Move| #[trigger]
                    legal@.contains(m) <==> (self.valid_move(m) && exists|j: int| 0 <= j < i && all@[j] == m),
            decreases all@.len() - i,
        {
            let m = all[i];
            let ghost before = legal@;
            if self.is_valid_move(m.0, m.1) {
                proof {
                    if legal@.contains(m) {
                        let j = choose|j: int| 0 <= j < i && all@[j] == m;
                        assert(all@[i as int] == m);
                    }
                }
                push_move(&mut legal, m);
            }
            assert forall|x: Move| #[trigger]
                legal@.contains(x) <==> (self.valid_move(x) && exists|j: int| 0 <= j < i + 1 && all@[j] == x) by {
                if x == m {
                    assert(all@[i as int] == x);
                }
                if exists|j: int| 0 <= j < i + 1 && all@[j] == x {
                    let j = choose|j: int| 0 <= j < i + 1 && all@[j] == x;
                    if j < i {
                        assert(before.contains(x) <==> self.valid_move(x));
                    }
                }
            }
            i = i + 1;
        }
        assert forall|m: Move| #[trigger] legal@.contains(m) <==> self.legal_move(color, m) by {
            if self.legal_move(color, m) {
                assert(self.pseudo_move_of(color, m));
                assert(all@.contains(m));
                let j = choose|j: int| 0 <= j < all@.len() && all@[j] == m;
            }
            if legal@.contains(m) {
                let j = choose|j: int| 0 <= j < i && all@[j] == m;
                assert(all@.contains(m));
            }
        }
        legal
    }

    /// The legal moves of the piece on (row, col).
    pub fn legal_moves_from(&self, row: usize, col: usize) -> (r: Vec<Move>)
        requires
            row < 8,
            col < 8,
        ensures
            r@.no_duplicates(),
            forall|m: Move| #[trigger] r@.contains(m) <==> (m.0 == (row, col) && self.valid_move(m)),
    {
        let all = self.generate_moves_for_piece(row, col);
        let mut legal: Vec<Move> = Vec::new();
        let mut i: usize = 0;
        while i < all.len()
            invariant
                i <= all@.len(),
                all@.no_duplicates(),
                legal@.no_duplicates(),
                forall|m: Move| #[trigger] all@.contains(m) <==> (m.0 == (row, col) && self.pseudo_move(m)),
                forall|m: Move| #[trigger]
                    legal@.contains(m) <==> (self.valid_move(m) && exists|j: int| 0 <= j < i && all@[j] == m),
            decreases all@.len() - i,
        {
            let m = all[i];
            let ghost before = legal@;
            if self.is_valid_move(m.0, m.1) {
                proof {
                    if legal@.contains(m) {
                        let j = choose|j: int| 0 <= j < i && all@[j] == m;
                        assert(all@[i as int] == m);
                    }
                }
                push_move(&mut legal, m);
            }
            assert forall|x: Move| #[trigger]
                legal@.contains(x) <==> (self.valid_move(x) && exists|j: int| 0 <= j < i + 1 && all@[j] == x) by {
                if x == m {
                    assert(all@[i as int] == x);
                }
                if exists|j: int| 0 <= j < i + 1 && all@[j] == x {
                    let j = choose|j: int| 0 <= j < i + 1 && all@[j] == x;
                    if j < i {
                        assert(before.contains(x) <==> self.valid_move(x));
                    }
                }
            }
            i = i + 1;
        }
        assert forall|m: Move| #[trigger] legal@.contains(m) <==> (m.0 == (row, col) && self.valid_move(m)) by {
            if m.0 == (row, col) && self.valid_move(m) {
                assert(self.pseudo_move(m));
                assert(all@.contains(m));
                let j = choose|j: int| 0 <= j < all@.len() && all@[j] == m;
            }
            if legal@.contains(m) {
                let j = choose|j: int| 0 <= j < i && all@[j] == m;
                assert(all@.contains(m));
            }
        }
        legal
    }
}


impl Board {
    /// The legal moves of `color` that land on an occupied square.
    pub fn generate_legal_captures(&self, color: Color) -> (r: Vec<Move>)
        ensures
            r@.no_duplicates(),
            forall|m: Move| #[trigger]
                r@.contains(m) <==> (self.legal_move(color, m) && self.at(m.1.0 as int, m.1.1 as int).is_some()),
    {
        let all = self.generate_all_moves(color);
        let mut caps: Vec<Move> = Vec::new();
        let mut i: usize = 0;
        while i < all.len()
            invariant
                i <= all@.len(),
                all@.no_duplicates(),
                caps@.no_duplicates(),
                forall|m: Move| #[trigger] all@.contains(m) <==> self.pseudo_move_of(color, m),
                forall|m: Move| #[trigger]
                    caps@.contains(m) <==> (self.valid_move(m) && self.at(m.1.0 as int, m.1.1 as int).is_some()
                        && exists|j: int| 0 <= j < i && all@[j] == m),
            decreases all@.len() - i,
        {
            let m = all[i];
            assert(all@.contains(m));
            let ghost before = caps@;
            if self.squares[m.1.0][m.1.1].is_some() && self.is_valid_move(m.0, m.1) {
                proof {
                    if caps@.contains(m) {
                        let j = choose|j: int| 0 <= j < i && all@[j] == m;
                        assert(all@[i as int] == m);
                    }
                }
                push_move(&mut caps, m);
            }
            assert forall|x: Move| #[trigger]
                caps@.contains(x) <==> (self.valid_move(x) && self.at(x.1.0 as int, x.1.1 as int).is_some()
                    && exists|j: int| 0 <= j < i + 1 && all@[j] == x) by {
                if x == m {
                    assert(all@[i as int] == x);
                }
                if exists|j: int| 0 <= j < i + 1 && all@[j] == x {
                    let j = choose|j: int| 0 <= j < i + 1 && all@[j] == x;
                    if j < i {
                        assert(before.contains(x) <==> (self.valid_move(x) && self.at(x.1.0 as int, x.1.1 as int).is_some()));
                    }
                }
            }
            i = i + 1;
        }
        assert forall|m: Move| #[trigger]
            caps@.contains(m) <==> (self.legal_move(color, m) && self.at(m.1.0 as int, m.1.1 as int).is_some()) by {
            if self.legal_move(color, m) {
                assert(self.pseudo_move_of(color, m));
                assert(all@.contains(m));
                let j = choose|j: int| 0 <= j < all@.len() && all@[j] == m;
            }
            if caps@.contains(m) {
                let j = choose|j: int| 0 <= j < i && all@[j] == m;
                assert(all@.contains(m));
            }
        }
        caps
    }
}

/// A pawn, rook or queen: material with which mate can always be forced.
pub open spec fn is_major(kind: PieceType) -> bool {
    kind == PieceType::Pawn || kind == PieceType::Rook || kind == PieceType::Queen
}

/// A knight or bishop.
pub open spec fn is_minor(kind: PieceType) -> bool {
    kind == PieceType::Knight || kind == PieceType::Bishop
}

impl Board {
    /// How many pieces of `color` among the first `n` squares in row-major
    /// order are major (or minor, when `major` is false).
    pub open spec fn count_below(self, color: Color, major: bool, n: int) -> int
        decreases n,
    {
        if n <= 0 {
            0
        } else {
            let i = n - 1;
            let hit = match self.at(i / 8, i % 8) {
                Some(p) => p.color == color && if major {
                    is_major(p.kind)
                } else {
                    is_minor(p.kind)
                },
                None => false,
            };
            self.count_below(color, major, i) + if hit {
                1int
            } else {
                0int
            }
        }
    }

    pub open spec fn count_of(self, color: Color, major: bool) -> int {
        self.count_below(color, major, 64)
    }

    /// Neither side has a pawn, rook or queen, and each has at most one
    /// knight or bishop.
    pub open spec fn insufficient_material(self) -> bool {
        &&& self.count_of(Color::White, true) == 0
        &&& self.count_of(Color::Black, true) == 0
        &&& self.count_of(Color::White, false) <= 1
        &&& self.count_of(Color::Black, false) <= 1
    }

    pub open spec fn draw(self, color: Color) -> bool {
        self.stalemate(color) || self.insufficient_material() || self.half_move_clock >= 50
    }

    /// Whether `color` has a legal move.
    pub fn has_any_legal_move(&self, color: Color) -> (r: bool)
        ensures
            r == self.has_legal_move(color),
    {
        let all = self.generate_all_moves(color);
        let mut i: usize = 0;
        while i < all.len()
            invariant
                i <= all@.len(),
                forall|m: Move| #[trigger] all@.contains(m) <==> self.pseudo_move_of(color, m),
                forall|j: int| 0 <= j < i ==> !#[trigger] self.valid_move(all@[j]),
            decreases all@.len() - i,
        {
            let m = all[i];
            if self.is_valid_move(m.0, m.1) {
                assert(all@.contains(m));
                assert(self.legal_move(color, m));
                return true;
            }
            i = i + 1;
        }
        assert forall|m: Move| !#[trigger] self.legal_move(color, m) by {
            if self.legal_move(color, m) {
                assert(all@.contains(m));
                let j = choose|j: int| 0 <= j < all@.len() && all@[j] == m;
                assert(!self.valid_move(all@[j]));
            }
        }
        false
    }

    /// Whether `color` is in check and has no legal move.
    pub fn is_checkmate(&self, color: Color) -> (r: bool)
        ensures
            r == self.checkmate(color),
    {
        if !self.is_in_check(color) {
            return false;
        }
        !self.has_any_legal_move(color)
    }

    /// Whether `color` is not in check and has no legal move.
    pub fn is_stalemate(&self, color: Color) -> (r: bool)
        ensures
            r == self.stalemate(color),
    {
        if self.is_in_check(color) {
            return false;
        }
        !self.has_any_legal_move(color)
    }

    /// Whether mate may still be reached with the material on the board:
    /// false when neither side has a pawn, rook or queen and each has at
    /// most one knight or bishop.
    pub fn has_sufficient_material(&self) -> (r: bool)
        ensures
            r == !self.insufficient_material(),
    {
        let mut white_major: u32 = 0;
        let mut black_major: u32 = 0;
        let mut white_minor: u32 = 0;
        let mut black_minor: u32 = 0;
        let mut i: usize = 0;
        while i < 64
            invariant
                i <= 64,
                white_major == self.count_below(Color::White, true, i as int),
                black_major == self.count_below(Color::Black, true, i as int),
                white_minor == self.count_below(Color::White, false, i as int),
                black_minor == self.count_below(Color::Black, false, i as int),
                white_major <= i && black_major <= i && white_minor <= i && black_minor <= i,
            decreases 64 - i,
        {
            if let Some(piece) = self.squares[i / 8][i % 8] {
                match piece.kind {
                    PieceType::Pawn | PieceType::Rook | PieceType::Queen => {
                        if piece.color == Color::White {
                            white_major = white_major + 1;
                        } else {
                            black_major = black_major + 1;
                        }
                    },
                    PieceType::Knight | PieceType::Bishop => {
                        if piece.color == Color::White {
                            white_minor = white_minor + 1;
                        } else {
                            black_minor = black_minor + 1;
                        }
                    },
                    PieceType::King => {},
                }
            }
            i = i + 1;
        }
        white_major > 0 || black_major > 0 || white_minor > 1 || black_minor > 1
    }

    /// Whether the game is drawn for `color` to move: stalemate, too little
    /// material on both sides, or fifty plies without a pawn move or capture.
    pub fn is_draw(&self, color: Color) -> (r: bool)
        ensures
            r == self.draw(color),
    {
        self.is_stalemate(color) || !self.has_sufficient_material() || self.half_move_clock >= 50
    }
}
} // verus!
