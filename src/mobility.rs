use vstd::prelude::*;
use crate::piece::{Color, PieceType};
use crate::board::{Board, Move};
use crate::structure::{INITIAL_MATERIAL, non_king_material_below};

verus! {

/// Bonus per reachable square, by piece kind.
pub open spec fn mobility_weight(kind: PieceType) -> int {
    match kind {
        PieceType::Knight => 4,
        PieceType::Bishop => 5,
        PieceType::Rook => 2,
        PieceType::Queen => 1,
        _ => 0,
    }
}

/// How many of the first `n` squares the piece on (r, c) can move to.
pub open spec fn targets_below(b: Board, r: int, c: int, n: int) -> int
    decreases n,
{
    if n <= 0 {
        0
    } else {
        targets_below(b, r, c, n - 1) + if b.pseudo_target(r, c, (n - 1) / 8, (n - 1) % 8) {
            1int
        } else {
            0int
        }
    }
}

/// The weighted mobility of the pieces of `color` on the first `n` squares.
pub open spec fn mobility_below(b: Board, color: Color, n: int) -> int
    decreases n,
{
    if n <= 0 {
        0
    } else {
        let (r, c) = ((n - 1) / 8, (n - 1) % 8);
        mobility_below(b, color, n - 1) + match b.at(r, c) {
            Some(p) => if p.color == color {
                mobility_weight(p.kind) * targets_below(b, r, c, 64)
            } else {
                0
            },
            None => 0,
        }
    }
}

/// The share of the initial non-king material still on the board, at most
/// the whole, as a numerator over `INITIAL_MATERIAL`.
pub open spec fn phase_numerator(b: Board) -> int {
    let m = non_king_material_below(b, 64);
    if m > INITIAL_MATERIAL {
        INITIAL_MATERIAL as int
    } else {
        m
    }
}

/// The mobility term from White's side, each side's mobility scaled by the
/// game phase: it counts most while the board is full.
pub open spec fn mobility_term(b: Board) -> int {
    (mobility_below(b, Color::White, 64) * phase_numerator(b)) / (INITIAL_MATERIAL as int) - (mobility_below(
        b,
        Color::Black,
        64,
    ) * phase_numerator(b)) / (INITIAL_MATERIAL as int)
}

/// How many squares the piece on (row, col) can move to.
fn target_count(b: &Board, row: usize, col: usize) -> (res: i32)
    requires
        row < 8,
        col < 8,
    ensures
        res == targets_below(*b, row as int, col as int, 64),
        0 <= res <= 64,
{
    let moves = b.generate_moves_for_piece(row, col);
    let mut count: i32 = 0;
    let mut t: usize = 0;
    while t < 64
        invariant
            t <= 64,
            row < 8,
            col < 8,
            forall|m: Move| #[trigger] moves@.contains(m) <==> (m.0 == (row, col) && b.pseudo_move(m)),
            count == targets_below(*b, row as int, col as int, t as int),
            0 <= count <= t,
        decreases 64 - t,
    {
        let target: Move = ((row, col), (t / 8, t % 8));
        let mut found = false;
        let mut i: usize = 0;
        while i < moves.len()
            invariant
                i <= moves@.len(),
                found == exists|j: int| 0 <= j < i && moves@[j] == target,
            decreases moves@.len() - i,
        {
            let m = moves[i];
            if m.0.0 == target.0.0 && m.0.1 == target.0.1 && m.1.0 == target.1.0 && m.1.1 == target.1.1 {
                found = true;
            }
            i = i + 1;
        }
        assert(found == moves@.contains(target));
        if found {
            count = count + 1;
        }
        t = t + 1;
    }
    count
}

/// The mobility term of `b` from White's side.
pub fn mobility_term_of(b: &Board) -> (res: i32)
    ensures
        res == mobility_term(*b),
        -20480 <= res <= 20480,
{
    let mut white: i32 = 0;
    let mut black: i32 = 0;
    let mut material: i32 = 0;
    let mut i: usize = 0;
    while i < 64
        invariant
            i <= 64,
            white == mobility_below(*b, Color::White, i as int),
            black == mobility_below(*b, Color::Black, i as int),
            material == non_king_material_below(*b, i as int),
            0 <= white <= 320 * i,
            0 <= black <= 320 * i,
            0 <= material <= 900 * i,
        decreases 64 - i,
    {
        let (r, c) = (i / 8, i % 8);
        if let Some(p) = b.squares[r][c] {
            let weight: i32 = match p.kind {
                PieceType::Knight => 4,
                PieceType::Bishop => 5,
                PieceType::Rook => 2,
                PieceType::Queen => 1,
                _ => 0,
            };
            if p.kind != PieceType::King {
                material = material + crate::piece::get_piece_value(&p);
            }
            if weight > 0 {
                let n = target_count(b, r, c);
                assert(0 <= weight * n <= 320) by (nonlinear_arith)
                    requires
                        0 < weight <= 5,
                        0 <= n <= 64,
                ;
                match p.color {
                    Color::White => {
                        white = white + weight * n;
                    },
                    Color::Black => {
                        black = black + weight * n;
                    },
                }
            }
        }
        i = i + 1;
    }
    let phase = if material > INITIAL_MATERIAL {
        INITIAL_MATERIAL
    } else {
        material
    };
    assert(0 <= white * phase <= 20480 * 7800) by (nonlinear_arith)
        requires
            0 <= white <= 20480,
            0 <= phase <= 7800,
    ;
    assert(0 <= black * phase <= 20480 * 7800) by (nonlinear_arith)
        requires
            0 <= black <= 20480,
            0 <= phase <= 7800,
    ;
    let w = white * phase / INITIAL_MATERIAL;
    let k = black * phase / INITIAL_MATERIAL;
    assert(0 <= w <= 20480 && 0 <= k <= 20480) by (nonlinear_arith)
        requires
            w == white * phase / 7800,
            k == black * phase / 7800,
            0 <= white * phase <= 20480 * 7800,
            0 <= black * phase <= 20480 * 7800,
    ;
    w - k
}

} // verus!
