use vstd::prelude::*;
use crate::piece::{Color, Piece, PieceType};
use crate::board::{Board, Move, Square, in_bounds, home_row, pawn_start_row, pawn_dir, step};

verus! {

/// The offsets of a knight's jump.
pub open spec fn knight_offset(dr: int, dc: int) -> bool {
    ||| (dr == 2 || dr == -2) && (dc == 1 || dc == -1)
    ||| (dr == 1 || dr == -1) && (dc == 2 || dc == -2)
}

/// The offsets of a king's step.
pub open spec fn king_offset(dr: int, dc: int) -> bool {
    -1 <= dr <= 1 && -1 <= dc <= 1 && !(dr == 0 && dc == 0)
}

/// The column a castling rook starts on, given the king's destination column.
pub open spec fn rook_home_col(to_col: int) -> int {
    if to_col == 6 {
        7
    } else {
        0
    }
}

impl Board {
    /// Where a pawn of `color` on (r, c) may go: one step ahead onto an empty
    /// square, two steps from its starting row over two empty squares, one
    /// step diagonally onto an enemy piece, or diagonally onto the empty
    /// en-passant square, beside which an enemy pawn stands.
    pub open spec fn pawn_target(self, r: int, c: int, color: Color, tr: int, tc: int) -> bool {
        let nr = r + pawn_dir(color);
        ||| tc == c && tr == nr && in_bounds(tr, tc) && self.is_empty_at(tr, tc)
        ||| r == pawn_start_row(color) && tc == c && tr == nr + pawn_dir(color) && self.is_empty_at(nr, c)
            && self.is_empty_at(tr, tc)
        ||| tr == nr && (tc == c - 1 || tc == c + 1) && in_bounds(tr, tc) && self.is_enemy(tr, tc, color)
        ||| tr == nr && (tc == c - 1 || tc == c + 1) && in_bounds(tr, tc) && self.is_ep_target(tr, tc)
            && self.is_empty_at(tr, tc) && self.has_piece(r, tc, crate::piece::opposite_spec(color), PieceType::Pawn)
    }

    pub open spec fn knight_target(self, r: int, c: int, color: Color, tr: int, tc: int) -> bool {
        knight_offset(tr - r, tc - c) && self.can_land(tr, tc, color)
    }

    pub open spec fn king_step_target(self, r: int, c: int, color: Color, tr: int, tc: int) -> bool {
        king_offset(tr - r, tc - c) && self.can_land(tr, tc, color)
    }

    /// The squares strictly between a king on its home column and the rook
    /// of the chosen wing are empty.
    pub open spec fn castle_path_empty(self, row: int, kingside: bool) -> bool {
        if kingside {
            self.is_empty_at(row, 5) && self.is_empty_at(row, 6)
        } else {
            self.is_empty_at(row, 1) && self.is_empty_at(row, 2) && self.is_empty_at(row, 3)
        }
    }

    /// Castling from `(fr, fc)` to `(tr, tc)` is allowed before looking at
    /// attacks: a king on its own home square, moving to column 2 or 6 of its
    /// row, with the right still held, its rook on its home square, and the
    /// squares between them empty.
    pub open spec fn castle_ready(self, fr: int, fc: int, tr: int, tc: int) -> bool {
        &&& fc == 4 && tr == fr && (tc == 6 || tc == 2) && 0 <= fr < 8
        &&& match self.at(fr, fc) {
            Some(k) => {
                &&& k.kind == PieceType::King
                &&& fr == home_row(k.color)
                &&& self.castle_right(k.color, tc == 6)
                &&& self.has_piece(fr, rook_home_col(tc), k.color, PieceType::Rook)
                &&& self.castle_path_empty(fr, tc == 6)
            },
            None => false,
        }
    }

    /// The first `k - 1` squares from (r, c) in direction (dr, dc) are empty.
    pub open spec fn ray_clear(self, r: int, c: int, dr: int, dc: int, k: int) -> bool {
        forall|j: int| 1 <= j < k ==> #[trigger] self.is_empty_at(step(r, dr, j), step(c, dc, j))
    }

    /// A sliding piece of `color` on (r, c) reaches (tr, tc) in direction
    /// (dr, dc) within fewer than `bound` steps.
    pub open spec fn ray_target_below(
        self,
        r: int,
        c: int,
        dr: int,
        dc: int,
        color: Color,
        tr: int,
        tc: int,
        bound: int,
    ) -> bool {
        exists|k: int|
            1 <= k < bound && tr == step(r, dr, k) && tc == step(c, dc, k) && self.can_land(tr, tc, color)
                && #[trigger] self.ray_clear(r, c, dr, dc, k)
    }

    /// A sliding piece of `color` on (r, c) reaches (tr, tc) in direction
    /// (dr, dc): every square before it is empty and it is not its own.
    pub open spec fn ray_target(self, r: int, c: int, dr: int, dc: int, color: Color, tr: int, tc: int) -> bool {
        exists|k: int|
            1 <= k && tr == step(r, dr, k) && tc == step(c, dc, k) && self.can_land(tr, tc, color)
                && #[trigger] self.ray_clear(r, c, dr, dc, k)
    }

    pub open spec fn line_target(self, r: int, c: int, color: Color, tr: int, tc: int) -> bool {
        ||| self.ray_target(r, c, 1, 0, color, tr, tc)
        ||| self.ray_target(r, c, -1, 0, color, tr, tc)
        ||| self.ray_target(r, c, 0, 1, color, tr, tc)
        ||| self.ray_target(r, c, 0, -1, color, tr, tc)
    }

    pub open spec fn diagonal_target(self, r: int, c: int, color: Color, tr: int, tc: int) -> bool {
        ||| self.ray_target(r, c, 1, 1, color, tr, tc)
        ||| self.ray_target(r, c, 1, -1, color, tr, tc)
        ||| self.ray_target(r, c, -1, 1, color, tr, tc)
        ||| self.ray_target(r, c, -1, -1, color, tr, tc)
    }

    /// The piece on (r, c) can move to (tr, tc), king safety aside.
    pub open spec fn pseudo_target(self, r: int, c: int, tr: int, tc: int) -> bool {
        &&& in_bounds(r, c)
        &&& match self.at(r, c) {
            None => false,
            Some(p) => match p.kind {
                PieceType::Pawn => self.pawn_target(r, c, p.color, tr, tc),
                PieceType::Knight => self.knight_target(r, c, p.color, tr, tc),
                PieceType::King => self.king_step_target(r, c, p.color, tr, tc) || self.castle_ready(
                    r,
                    c,
                    tr,
                    tc,
                ),
                PieceType::Rook => self.line_target(r, c, p.color, tr, tc),
                PieceType::Bishop => self.diagonal_target(r, c, p.color, tr, tc),
                PieceType::Queen => self.line_target(r, c, p.color, tr, tc) || self.diagonal_target(
                    r,
                    c,
                    p.color,
                    tr,
                    tc,
                ),
            },
        }
    }

    pub open spec fn pseudo_move(self, m: Move) -> bool {
        self.pseudo_target(m.0.0 as int, m.0.1 as int, m.1.0 as int, m.1.1 as int)
    }

    /// `m` moves a piece of `color` as that piece may move, king safety aside.
    pub open spec fn pseudo_move_of(self, color: Color, m: Move) -> bool {
        self.is_own(m.0.0 as int, m.0.1 as int, color) && self.pseudo_move(m)
    }
}

pub proof fn lemma_push_contains(s: Seq<Move>, x: Move)
    ensures
        forall|y: Move| #[trigger] s.push(x).contains(y) <==> (s.contains(y) || y == x),
{
    assert forall|y: Move| #[trigger] s.push(x).contains(y) <==> (s.contains(y) || y == x) by {
        if s.contains(y) {
            let i = choose|i: int| 0 <= i < s.len() && s[i] == y;
            assert(s.push(x)[i] == y);
        }
        if y == x {
            assert(s.push(x)[s.len() as int] == y);
        }
        if s.push(x).contains(y) {
            let i = choose|i: int| 0 <= i < s.push(x).len() && s.push(x)[i] == y;
            if i < s.len() {
                assert(s[i] == y);
            }
        }
    }
}

pub(crate) fn push_move(moves: &mut Vec<Move>, m: Move)
    requires
        old(moves)@.no_duplicates(),
        !old(moves)@.contains(m),
    ensures
        final(moves)@.no_duplicates(),
        final(moves)@ == old(moves)@.push(m),
        forall|y: Move| #[trigger] final(moves)@.contains(y) <==> (old(moves)@.contains(y) || y == m),
{
    proof {
        lemma_push_contains(moves@, m);
    }
    let ghost before = moves@;
    moves.push(m);
    assert forall|a: int, b: int| 0 <= a < b < moves@.len() implies moves@[a] != moves@[b] by {
        if b == before.len() {
            assert(before[a] == moves@[a]);
        }
    }
}

impl Board {
    /// Adds the move from (row, col) by (dr, dc) when it lands on the board
    /// and not on a piece of `color`.
    fn push_step(&self, row: usize, col: usize, dr: isize, dc: isize, color: Color, moves: &mut Vec<Move>)
        requires
            row < 8,
            col < 8,
            -2 <= dr <= 2,
            -2 <= dc <= 2,
            old(moves)@.no_duplicates(),
            forall|m: Move| #[trigger]
                old(moves)@.contains(m) ==> !(m.0 == (row, col) && m.1.0 == row + dr && m.1.1 == col + dc),
        ensures
            final(moves)@.no_duplicates(),
            forall|m: Move| #[trigger]
                final(moves)@.contains(m) <==> (old(moves)@.contains(m) || (m.0 == (row, col) && m.1.0
                    == row + dr && m.1.1 == col + dc && self.can_land(row + dr, col + dc, color))),
    {
        let nr = row as isize + dr;
        let nc = col as isize + dc;
        if 0 <= nr && nr < 8 && 0 <= nc && nc < 8 {
            let land = match self.squares[nr as usize][nc as usize] {
                Some(p) => p.color != color,
                None => true,
            };
            if land {
                push_move(moves, ((row, col), (nr as usize, nc as usize)));
            }
        }
    }

    fn gen_pawn(&self, row: usize, col: usize, color: Color, moves: &mut Vec<Move>)
        requires
            row < 8,
            col < 8,
            old(moves)@.no_duplicates(),
            forall|m: Move| #[trigger] old(moves)@.contains(m) ==> m.0 != (row, col),
        ensures
            final(moves)@.no_duplicates(),
            forall|m: Move| #[trigger]
                final(moves)@.contains(m) <==> (old(moves)@.contains(m) || (m.0 == (row, col)
                    && self.pawn_target(row as int, col as int, color, m.1.0 as int, m.1.1 as int))),
    {
        let ghost start = moves@;
        let direction: isize = match color {
            Color::White => 1,
            Color::Black => -1,
        };
        let new_row = row as isize + direction;
        let in_row = 0 <= new_row && new_row < 8;
        if in_row && self.squares[new_row as usize][col].is_none() {
            push_move(moves, ((row, col), (new_row as usize, col)));
        }
        let starting_row: usize = match color {
            Color::White => 1,
            Color::Black => 6,
        };
        if row == starting_row && self.squares[new_row as usize][col].is_none() {
            let double_row = new_row + direction;
            if self.squares[double_row as usize][col].is_none() {
                push_move(moves, ((row, col), (double_row as usize, col)));
            }
        }
        if in_row && col > 0 {
            if let Some(dest) = self.squares[new_row as usize][col - 1] {
                if dest.color != color {
                    push_move(moves, ((row, col), (new_row as usize, col - 1)));
                }
            }
        }
        if in_row && col < 7 {
            if let Some(dest) = self.squares[new_row as usize][col + 1] {
                if dest.color != color {
                    push_move(moves, ((row, col), (new_row as usize, col + 1)));
                }
            }
        }
        if let Some((target_row, target_col)) = self.en_passant_target {
            if in_row && new_row as usize == target_row && target_col < 8 && (col + 1 == target_col
                || target_col + 1 == col) && self.squares[target_row][target_col].is_none() {
                let beside = self.squares[row][target_col];
                let enemy_pawn = match beside {
                    Some(p) => p.kind == PieceType::Pawn && p.color != color,
                    None => false,
                };
                if enemy_pawn {
                    push_move(moves, ((row, col), (target_row, target_col)));
                }
            }
        }
        assert forall|m: Move| #[trigger]
            moves@.contains(m) <==> (start.contains(m) || (m.0 == (row, col) && self.pawn_target(
                row as int,
                col as int,
                color,
                m.1.0 as int,
                m.1.1 as int,
            ))) by {
            if m.0 == (row, col) && self.pawn_target(row as int, col as int, color, m.1.0 as int, m.1.1 as int) {
                assert(moves@.contains(m));
            }
        }
    }
}


impl Board {
    /// Adds every square that a sliding piece of `color` on (row, col)
    /// reaches in direction (dr, dc): empty squares up to the edge or the
    /// first piece, and that piece's square when it is an enemy.
    fn generate_moves_in_direction(
        &self,
        row: usize,
        col: usize,
        dr: isize,
        dc: isize,
        color: Color,
        moves: &mut Vec<Move>,
    )
        requires
            row < 8,
            col < 8,
            -1 <= dr <= 1,
            -1 <= dc <= 1,
            !(dr == 0 && dc == 0),
            old(moves)@.no_duplicates(),
            forall|m: Move| #[trigger]
                old(moves)@.contains(m) ==> !(m.0 == (row, col) && self.ray_target(
                    row as int,
                    col as int,
                    dr as int,
                    dc as int,
                    color,
                    m.1.0 as int,
                    m.1.1 as int,
                )),
        ensures
            final(moves)@.no_duplicates(),
            forall|m: Move| #[trigger]
                final(moves)@.contains(m) <==> (old(moves)@.contains(m) || (m.0 == (row, col)
                    && self.ray_target(row as int, col as int, dr as int, dc as int, color, m.1.0 as int, m.1.1 as int))),
    {
        let ghost start = moves@;
        let ghost (r, c, d1, d2) = (row as int, col as int, dr as int, dc as int);
        let mut k: isize = 1;
        let mut new_row: isize = row as isize + dr;
        let mut new_col: isize = col as isize + dc;
        loop
            invariant_except_break
                row < 8,
                col < 8,
                -1 <= dr <= 1,
                -1 <= dc <= 1,
                !(dr == 0 && dc == 0),
                r == row as int,
                c == col as int,
                moves@.no_duplicates(),
                forall|m: Move| #[trigger]
                    start.contains(m) ==> !(m.0 == (row, col) && self.ray_target(r, c, d1, d2, color, m.1.0 as int, m.1.1 as int)),
                d1 == dr as int,
                d2 == dc as int,
                1 <= k <= 8,
                new_row == step(r, d1, k as int),
                new_col == step(c, d2, k as int),
                self.ray_clear(r, c, d1, d2, k as int),
                forall|m: Move| #[trigger]
                    moves@.contains(m) <==> (start.contains(m) || (m.0 == (row, col)
                        && self.ray_target_below(r, c, d1, d2, color, m.1.0 as int, m.1.1 as int, k as int))),
            ensures
                moves@.no_duplicates(),
                forall|m: Move| #[trigger]
                    moves@.contains(m) <==> (start.contains(m) || (m.0 == (row, col)
                        && self.ray_target(r, c, d1, d2, color, m.1.0 as int, m.1.1 as int))),
            decreases 8 - k,
        {
            if !(0 <= new_row && new_row < 8 && 0 <= new_col && new_col < 8) {
                assert forall|m: Move| #[trigger]
                    moves@.contains(m) <==> (start.contains(m) || (m.0 == (row, col)
                        && self.ray_target(r, c, d1, d2, color, m.1.0 as int, m.1.1 as int))) by {
                    let (tr, tc) = (m.1.0 as int, m.1.1 as int);
                    if self.ray_target(r, c, d1, d2, color, tr, tc) {
                        let j = choose|j: int|
                            1 <= j && tr == step(r, d1, j) && tc == step(c, d2, j) && self.can_land(tr, tc, color)
                                && #[trigger] self.ray_clear(r, c, d1, d2, j);
                        assert(self.ray_target_below(r, c, d1, d2, color, tr, tc, k as int));
                    }
                    if self.ray_target_below(r, c, d1, d2, color, tr, tc, k as int) {
                        let j = choose|j: int|
                            1 <= j < k && tr == step(r, d1, j) && tc == step(c, d2, j) && self.can_land(tr, tc, color)
                                && #[trigger] self.ray_clear(r, c, d1, d2, j);
                        assert(self.ray_target(r, c, d1, d2, color, tr, tc));
                    }
                }
                break;
            }
            let dest = self.squares[new_row as usize][new_col as usize];
            match dest {
                Some(p) => {
                    if p.color != color {
                        proof {
                            let t: Move = ((row, col), (new_row as usize, new_col as usize));
                            assert(self.ray_target(r, c, d1, d2, color, t.1.0 as int, t.1.1 as int));
                            if moves@.contains(t) {
                                assert(!start.contains(t));
                                let j = choose|j: int|
                                    1 <= j < k && t.1.0 == step(r, d1, j) && t.1.1 == step(c, d2, j) && self.can_land(
                                        t.1.0 as int,
                                        t.1.1 as int,
                                        color,
                                    ) && #[trigger] self.ray_clear(r, c, d1, d2, j);
                            }
                        }
                        push_move(moves, ((row, col), (new_row as usize, new_col as usize)));
                    }
                    assert forall|m: Move| #[trigger]
                        moves@.contains(m) <==> (start.contains(m) || (m.0 == (row, col)
                            && self.ray_target(r, c, d1, d2, color, m.1.0 as int, m.1.1 as int))) by {
                        let (tr, tc) = (m.1.0 as int, m.1.1 as int);
                        if self.ray_target(r, c, d1, d2, color, tr, tc) {
                            let j = choose|j: int|
                                1 <= j && tr == step(r, d1, j) && tc == step(c, d2, j) && self.can_land(tr, tc, color)
                                    && #[trigger] self.ray_clear(r, c, d1, d2, j);
                            if j > k {
                                assert(self.is_empty_at(step(r, d1, k as int), step(c, d2, k as int)));
                            }
                        }
                        if self.ray_target_below(r, c, d1, d2, color, tr, tc, k as int) {
                            let j = choose|j: int|
                                1 <= j < k && tr == step(r, d1, j) && tc == step(c, d2, j) && self.can_land(tr, tc, color)
                                    && #[trigger] self.ray_clear(r, c, d1, d2, j);
                            assert(self.ray_target(r, c, d1, d2, color, tr, tc));
                        }
                    }
                    break;
                },
                None => {
                    proof {
                        let t: Move = ((row, col), (new_row as usize, new_col as usize));
                        assert(self.ray_target(r, c, d1, d2, color, t.1.0 as int, t.1.1 as int));
                        if moves@.contains(t) {
                            assert(!start.contains(t));
                            let j = choose|j: int|
                                1 <= j < k && t.1.0 == step(r, d1, j) && t.1.1 == step(c, d2, j) && self.can_land(
                                    t.1.0 as int,
                                    t.1.1 as int,
                                    color,
                                ) && #[trigger] self.ray_clear(r, c, d1, d2, j);
                        }
                    }
                    push_move(moves, ((row, col), (new_row as usize, new_col as usize)));
                    assert(self.ray_clear(r, c, d1, d2, k + 1));
                    assert forall|m: Move| #[trigger]
                        moves@.contains(m) <==> (start.contains(m) || (m.0 == (row, col)
                            && self.ray_target_below(r, c, d1, d2, color, m.1.0 as int, m.1.1 as int, k + 1))) by {
                        let (tr, tc) = (m.1.0 as int, m.1.1 as int);
                        if self.ray_target_below(r, c, d1, d2, color, tr, tc, k + 1) {
                            let j = choose|j: int|
                                1 <= j < k + 1 && tr == step(r, d1, j) && tc == step(c, d2, j) && self.can_land(tr, tc, color)
                                    && #[trigger] self.ray_clear(r, c, d1, d2, j);
                            if j < k {
                                assert(self.ray_target_below(r, c, d1, d2, color, tr, tc, k as int));
                            }
                        }
                        if m == ((row, col), (new_row as usize, new_col as usize)) {
                            assert(self.ray_clear(r, c, d1, d2, k as int));
                        }
                    }
                },
            }
            k = k + 1;
            new_row = new_row + dr;
            new_col = new_col + dc;
        }
    }
}

impl Board {
    /// Whether castling from `from` to `to` is allowed, attacks aside: the
    /// king on its home square, the right for that wing still held, the rook
    /// on its home square and the squares between them empty.
    pub fn can_castle_unsafe(&self, from: Square, to: Square) -> (r: bool)
        ensures
            r == self.castle_ready(from.0 as int, from.1 as int, to.0 as int, to.1 as int),
    {
        let (from_row, from_col) = from;
        let (to_row, to_col) = to;
        if from_col != 4 || (to_col != 6 && to_col != 2) || from_row != to_row || from_row >= 8 {
            return false;
        }
        let king = match self.squares[from_row][from_col] {
            Some(p) => p,
            None => {
                return false;
            },
        };
        if king.kind != PieceType::King {
            return false;
        }
        let home: usize = match king.color {
            Color::White => 0,
            Color::Black => 7,
        };
        if from_row != home {
            return false;
        }
        let kingside = to_col == 6;
        let rights = match king.color {
            Color::White => self.white_castle_possible,
            Color::Black => self.black_castle_possible,
        };
        let right = if kingside {
            rights.1
        } else {
            rights.0
        };
        if !right {
            return false;
        }
        let rook_col: usize = if kingside {
            7
        } else {
            0
        };
        match self.squares[from_row][rook_col] {
            Some(p) => {
                if p.kind != PieceType::Rook || p.color != king.color {
                    return false;
                }
            },
            None => {
                return false;
            },
        }
        if kingside {
            self.squares[from_row][5].is_none() && self.squares[from_row][6].is_none()
        } else {
            self.squares[from_row][1].is_none() && self.squares[from_row][2].is_none()
                && self.squares[from_row][3].is_none()
        }
    }

    fn gen_knight(&self, row: usize, col: usize, color: Color, moves: &mut Vec<Move>)
        requires
            row < 8,
            col < 8,
            old(moves)@.no_duplicates(),
            forall|m: Move| #[trigger] old(moves)@.contains(m) ==> m.0 != (row, col),
        ensures
            final(moves)@.no_duplicates(),
            forall|m: Move| #[trigger]
                final(moves)@.contains(m) <==> (old(moves)@.contains(m) || (m.0 == (row, col)
                    && self.knight_target(row as int, col as int, color, m.1.0 as int, m.1.1 as int))),
    {
        let ghost start = moves@;
        self.push_step(row, col, 2, 1, color, moves);
        self.push_step(row, col, 1, 2, color, moves);
        self.push_step(row, col, -1, 2, color, moves);
        self.push_step(row, col, -2, 1, color, moves);
        self.push_step(row, col, -2, -1, color, moves);
        self.push_step(row, col, -1, -2, color, moves);
        self.push_step(row, col, 1, -2, color, moves);
        self.push_step(row, col, 2, -1, color, moves);
    }

    fn gen_king(&self, row: usize, col: usize, color: Color, moves: &mut Vec<Move>)
        requires
            row < 8,
            col < 8,
            old(moves)@.no_duplicates(),
            forall|m: Move| #[trigger] old(moves)@.contains(m) ==> m.0 != (row, col),
        ensures
            final(moves)@.no_duplicates(),
            forall|m: Move| #[trigger]
                final(moves)@.contains(m) <==> (old(moves)@.contains(m) || (m.0 == (row, col) && (
                self.king_step_target(row as int, col as int, color, m.1.0 as int, m.1.1 as int)
                    || self.castle_ready(row as int, col as int, m.1.0 as int, m.1.1 as int)))),
    {
        self.push_step(row, col, -1, -1, color, moves);
        self.push_step(row, col, -1, 0, color, moves);
        self.push_step(row, col, -1, 1, color, moves);
        self.push_step(row, col, 0, -1, color, moves);
        self.push_step(row, col, 0, 1, color, moves);
        self.push_step(row, col, 1, -1, color, moves);
        self.push_step(row, col, 1, 0, color, moves);
        self.push_step(row, col, 1, 1, color, moves);
        if self.can_castle_unsafe((row, col), (row, 6)) {
            push_move(moves, ((row, col), (row, 6)));
        }
        if self.can_castle_unsafe((row, col), (row, 2)) {
            push_move(moves, ((row, col), (row, 2)));
        }
    }

    fn gen_lines(&self, row: usize, col: usize, color: Color, moves: &mut Vec<Move>)
        requires
            row < 8,
            col < 8,
            old(moves)@.no_duplicates(),
            forall|m: Move| #[trigger] old(moves)@.contains(m) ==> m.0 != (row, col),
        ensures
            final(moves)@.no_duplicates(),
            forall|m: Move| #[trigger]
                final(moves)@.contains(m) <==> (old(moves)@.contains(m) || (m.0 == (row, col)
                    && self.line_target(row as int, col as int, color, m.1.0 as int, m.1.1 as int))),
    {
        self.generate_moves_in_direction(row, col, 1, 0, color, moves);
        self.generate_moves_in_direction(row, col, -1, 0, color, moves);
        self.generate_moves_in_direction(row, col, 0, 1, color, moves);
        self.generate_moves_in_direction(row, col, 0, -1, color, moves);
    }

    fn gen_diagonals(&self, row: usize, col: usize, color: Color, moves: &mut Vec<Move>)
        requires
            row < 8,
            col < 8,
            old(moves)@.no_duplicates(),
            forall|m: Move| #[trigger]
                old(moves)@.contains(m) ==> !(m.0 == (row, col) && self.diagonal_target(row as int, col as int, color, m.1.0 as int, m.1.1 as int)),
        ensures
            final(moves)@.no_duplicates(),
            forall|m: Move| #[trigger]
                final(moves)@.contains(m) <==> (old(moves)@.contains(m) || (m.0 == (row, col)
                    && self.diagonal_target(row as int, col as int, color, m.1.0 as int, m.1.1 as int))),
    {
        self.generate_moves_in_direction(row, col, 1, 1, color, moves);
        self.generate_moves_in_direction(row, col, 1, -1, color, moves);
        self.generate_moves_in_direction(row, col, -1, 1, color, moves);
        self.generate_moves_in_direction(row, col, -1, -1, color, moves);
    }

    /// The moves of the piece on (row, col), king safety aside; empty when
    /// the square is empty.
    pub fn generate_moves_for_piece(&self, row: usize, col: usize) -> (r: Vec<Move>)
        requires
            row < 8,
            col < 8,
        ensures
            r@.no_duplicates(),
            forall|m: Move| #[trigger] r@.contains(m) <==> (m.0 == (row, col) && self.pseudo_move(m)),
    {
        let mut moves: Vec<Move> = Vec::new();
        if let Some(piece) = self.squares[row][col] {
            match piece.kind {
                PieceType::Pawn => self.gen_pawn(row, col, piece.color, &mut moves),
                PieceType::Knight => self.gen_knight(row, col, piece.color, &mut moves),
                PieceType::King => self.gen_king(row, col, piece.color, &mut moves),
                PieceType::Rook => self.gen_lines(row, col, piece.color, &mut moves),
                PieceType::Bishop => self.gen_diagonals(row, col, piece.color, &mut moves),
                PieceType::Queen => {
                    self.gen_lines(row, col, piece.color, &mut moves);
                    self.gen_diagonals(row, col, piece.color, &mut moves);
                },
            }
        }
        moves
    }

    /// Every move of every piece of `color`, king safety aside.
    pub fn generate_all_moves(&self, color: Color) -> (r: Vec<Move>)
        ensures
            r@.no_duplicates(),
            forall|m: Move| #[trigger] r@.contains(m) <==> self.pseudo_move_of(color, m),
    {
        let mut all: Vec<Move> = Vec::new();
        let mut row: usize = 0;
        while row < 8
            invariant
                row <= 8,
                all@.no_duplicates(),
                forall|m: Move| #[trigger]
                    all@.contains(m) <==> (self.pseudo_move_of(color, m) && m.0.0 < row),
            decreases 8 - row,
        {
            let mut col: usize = 0;
            while col < 8
                invariant
                    row < 8,
                    col <= 8,
                    all@.no_duplicates(),
                    forall|m: Move| #[trigger]
                        all@.contains(m) <==> (self.pseudo_move_of(color, m) && (m.0.0 < row || (m.0.0
                            == row && m.0.1 < col))),
                decreases 8 - col,
            {
                let own = match self.squares[row][col] {
                    Some(p) => p.color == color,
                    None => false,
                };
                if own {
                    let mut more = self.generate_moves_for_piece(row, col);
                    let ghost before = all@;
                    let ghost added = more@;
                    all.append(&mut more);
                    assert forall|a: int, b: int| 0 <= a < b < all@.len() implies all@[a] != all@[b] by {
                        if b >= before.len() && a < before.len() {
                            assert(before.contains(all@[a]));
                            assert(added.contains(all@[b]));
                        } else if a >= before.len() {
                            assert(added[a - before.len()] == all@[a]);
                            assert(added[b - before.len()] == all@[b]);
                        }
                    }
                    assert forall|m: Move| #[trigger]
                        all@.contains(m) <==> (before.contains(m) || added.contains(m)) by {
                        if before.contains(m) {
                            let i = choose|i: int| 0 <= i < before.len() && before[i] == m;
                            assert(all@[i] == m);
                        }
                        if added.contains(m) {
                            let i = choose|i: int| 0 <= i < added.len() && added[i] == m;
                            assert(all@[before.len() + i] == m);
                        }
                        if all@.contains(m) {
                            let i = choose|i: int| 0 <= i < all@.len() && all@[i] == m;
                            if i < before.len() {
                                assert(before[i] == m);
                            } else {
                                assert(added[i - before.len()] == m);
                            }
                        }
                    }
                }
                col = col + 1;
            }
            row = row + 1;
        }
        all
    }
}
} // verus!
