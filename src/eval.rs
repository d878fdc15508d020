use vstd::prelude::*;
use crate::piece::{Color, Piece, PieceType, get_piece_value, value_spec};
use crate::board::{Board, Move, in_bounds};
use crate::mobility::{mobility_term, mobility_term_of};
use crate::structure::{king_safety, king_safety_for, opening_term, opening_term_of, pawn_structure, pawn_structure_for};

verus! {

/// A bound on the size of any static evaluation.
pub const EVAL_BOUND: i32 = 1_400_000;

/// Distance of a row or column from the two central ones: 0 to 3.
pub open spec fn line_ring(x: int) -> int {
    if x < 4 {
        3 - x
    } else {
        x - 4
    }
}

/// Which ring around the centre (r, c) lies on: 0 for the four central
/// squares up to 3 for the edge.
pub open spec fn ring(r: int, c: int) -> int {
    if line_ring(r) >= line_ring(c) {
        line_ring(r)
    } else {
        line_ring(c)
    }
}

/// The row counted from the back rank of `color`.
pub open spec fn relative_row(color: Color, r: int) -> int {
    match color {
        Color::White => r,
        Color::Black => 7 - r,
    }
}

/// The central 4x4 region.
pub open spec fn is_central(r: int, c: int) -> bool {
    2 <= r <= 5 && 2 <= c <= 5
}

/// The piece-square bonus: pawns gain as they advance and on the four
/// central squares; knights and bishops gain near the centre and lose on
/// the rim. Tables are mirrored for Black through `relative_row`.
pub open spec fn positional_bonus(p: Piece, r: int, c: int) -> int {
    match p.kind {
        PieceType::Pawn => 5 * (relative_row(p.color, r) - 1) + if ring(r, c) == 0 {
            20int
        } else {
            0int
        },
        PieceType::Knight => 10 * (2 - ring(r, c)),
        PieceType::Bishop => 5 * (2 - ring(r, c)),
        _ => 0,
    }
}

/// What a piece on (r, c) is worth to its own side.
pub open spec fn piece_score(p: Piece, r: int, c: int) -> int {
    value_spec(p.kind) + positional_bonus(p, r, c) + if is_central(r, c) {
        10int
    } else {
        0int
    }
}

/// The contribution of square `i` (row-major) from White's side.
pub open spec fn square_score(b: Board, i: int) -> int {
    match b.at(i / 8, i % 8) {
        Some(p) => match p.color {
            Color::White => piece_score(p, i / 8, i % 8),
            Color::Black => -piece_score(p, i / 8, i % 8),
        },
        None => 0,
    }
}

/// The sum of the contributions of the first `n` squares.
pub open spec fn material_below(b: Board, n: int) -> int
    decreases n,
{
    if n <= 0 {
        0
    } else {
        material_below(b, n - 1) + square_score(b, n - 1)
    }
}

/// How many pieces of `color` and `kind` stand on the first `n` squares.
pub open spec fn kind_count_below(b: Board, color: Color, kind: PieceType, n: int) -> int
    decreases n,
{
    if n <= 0 {
        0
    } else {
        kind_count_below(b, color, kind, n - 1) + if b.has_piece((n - 1) / 8, (n - 1) % 8, color, kind) {
            1int
        } else {
            0int
        }
    }
}

/// The bonus for holding both bishops.
pub const BISHOP_PAIR: i32 = 30;

pub open spec fn bishop_pair_term(b: Board) -> int {
    (if kind_count_below(b, Color::White, PieceType::Bishop, 64) >= 2 {
        BISHOP_PAIR as int
    } else {
        0int
    }) - (if kind_count_below(b, Color::Black, PieceType::Bishop, 64) >= 2 {
        BISHOP_PAIR as int
    } else {
        0int
    })
}

/// The static evaluation from White's side: material with piece-square
/// bonuses, the bishop pair, pawn structure, king safety, mobility scaled
/// by the game phase and, in the opening, development.
pub open spec fn evaluation(b: Board) -> int {
    material_below(b, 64) + bishop_pair_term(b) + pawn_structure(b, Color::White) - pawn_structure(b, Color::Black)
        + king_safety(b, Color::White) - king_safety(b, Color::Black) + opening_term(b) + mobility_term(b)
}

/// The static evaluation from the side of `color`.
pub open spec fn evaluation_for(b: Board, color: Color) -> int {
    match color {
        Color::White => evaluation(b),
        Color::Black => -evaluation(b),
    }
}

/// The score that orders moves: the value of the piece taken, and a bonus
/// for landing in the central region.
pub open spec fn order_score(b: Board, m: Move) -> int {
    (match b.at(m.1.0 as int, m.1.1 as int) {
        Some(p) => value_spec(p.kind),
        None => 0,
    }) + if is_central(m.1.0 as int, m.1.1 as int) {
        10int
    } else {
        0int
    }
}

fn line_ring_exec(x: usize) -> (r: i32)
    requires
        x < 8,
    ensures
        r == line_ring(x as int),
{
    if x < 4 {
        3 - x as i32
    } else {
        x as i32 - 4
    }
}

fn ring_exec(r: usize, c: usize) -> (k: i32)
    requires
        r < 8,
        c < 8,
    ensures
        k == ring(r as int, c as int),
        0 <= k <= 3,
{
    let a = line_ring_exec(r);
    let b = line_ring_exec(c);
    if a >= b {
        a
    } else {
        b
    }
}

fn piece_score_exec(p: Piece, r: usize, c: usize) -> (s: i32)
    requires
        r < 8,
        c < 8,
    ensures
        s == piece_score(p, r as int, c as int),
        0 < s <= 20040,
{
    let k = ring_exec(r, c);
    let bonus: i32 = match p.kind {
        PieceType::Pawn => {
            let rel: i32 = match p.color {
                Color::White => r as i32,
                Color::Black => 7 - r as i32,
            };
            5 * (rel - 1) + if k == 0 {
                20
            } else {
                0
            }
        },
        PieceType::Knight => 10 * (2 - k),
        PieceType::Bishop => 5 * (2 - k),
        _ => 0,
    };
    let central: i32 = if 2 <= r && r <= 5 && 2 <= c && c <= 5 {
        10
    } else {
        0
    };
    get_piece_value(&p) + bonus + central
}

/// The static evaluation of `board`, positive when White stands better.
pub fn evaluate_position(board: &Board) -> (r: i32)
    ensures
        r == evaluation(*board),
        -EVAL_BOUND <= r <= EVAL_BOUND,
{
    let mut score: i32 = 0;
    let mut white_bishops: u32 = 0;
    let mut black_bishops: u32 = 0;
    let mut i: usize = 0;
    while i < 64
        invariant
            i <= 64,
            score == material_below(*board, i as int),
            -20040 * i <= score <= 20040 * i,
            white_bishops == kind_count_below(*board, Color::White, PieceType::Bishop, i as int),
            black_bishops == kind_count_below(*board, Color::Black, PieceType::Bishop, i as int),
            white_bishops <= i,
            black_bishops <= i,
        decreases 64 - i,
    {
        let row = i / 8;
        let col = i % 8;
        if let Some(p) = board.squares[row][col] {
            let s = piece_score_exec(p, row, col);
            match p.color {
                Color::White => {
                    score = score + s;
                },
                Color::Black => {
                    score = score - s;
                },
            }
            if p.kind == PieceType::Bishop {
                match p.color {
                    Color::White => {
                        white_bishops = white_bishops + 1;
                    },
                    Color::Black => {
                        black_bishops = black_bishops + 1;
                    },
                }
            }
        }
        i = i + 1;
    }
    if white_bishops >= 2 {
        score = score + BISHOP_PAIR;
    }
    if black_bishops >= 2 {
        score = score - BISHOP_PAIR;
    }
    score = score + pawn_structure_for(board, Color::White) - pawn_structure_for(board, Color::Black);
    score = score + king_safety_for(board, Color::White) - king_safety_for(board, Color::Black);
    score = score + opening_term_of(board);
    score = score + mobility_term_of(board);
    score
}

/// The static evaluation from the side of `color`.
pub fn evaluate_for(board: &Board, color: Color) -> (r: i32)
    ensures
        r == evaluation_for(*board, color),
        -EVAL_BOUND <= r <= EVAL_BOUND,
{
    let e = evaluate_position(board);
    match color {
        Color::White => e,
        Color::Black => -e,
    }
}

/// The ordering score of move `m`.
pub fn score_move(board: &Board, m: &Move) -> (r: i32)
    requires
        m.1.0 < 8,
        m.1.1 < 8,
    ensures
        r == order_score(*board, *m),
        0 <= r <= 20010,
{
    let (to_row, to_col) = m.1;
    let mut score: i32 = 0;
    if let Some(captured) = board.squares[to_row][to_col] {
        score = score + get_piece_value(&captured);
    }
    if 2 <= to_row && to_row <= 5 && 2 <= to_col && to_col <= 5 {
        score = score + 10;
    }
    score
}


/// The moves of `moves` ordered by descending `order_score`: captures of the
/// most valuable pieces first.
pub fn order_moves(board: &Board, moves: &Vec<Move>) -> (r: Vec<Move>)
    requires
        forall|m: Move| #[trigger] moves@.contains(m) ==> m.1.0 < 8 && m.1.1 < 8,
    ensures
        r@.to_multiset() == moves@.to_multiset(),
        forall|m: Move| #[trigger] r@.contains(m) <==> moves@.contains(m),
        forall|i: int, j: int|
            0 <= i < j < r@.len() ==> order_score(*board, #[trigger] r@[i]) >= order_score(*board, #[trigger] r@[j]),
{
    let mut out: Vec<Move> = Vec::new();
    let mut keys: Vec<i32> = Vec::new();
    let mut n: usize = 0;
    assert(out@ =~= moves@.take(0));
    while n < moves.len()
        invariant
            n <= moves@.len(),
            forall|m: Move| #[trigger] moves@.contains(m) ==> m.1.0 < 8 && m.1.1 < 8,
            keys@.len() == out@.len(),
            forall|k: int| 0 <= k < out@.len() ==> #[trigger] keys@[k] == order_score(*board, out@[k]),
            forall|i: int, j: int|
                0 <= i < j < out@.len() ==> order_score(*board, #[trigger] out@[i]) >= order_score(*board, #[trigger] out@[j]),
            forall|m: Move| #[trigger] out@.contains(m) <==> exists|j: int| 0 <= j < n && moves@[j] == m,
            out@.to_multiset() == moves@.take(n as int).to_multiset(),
        decreases moves@.len() - n,
    {
        let m = moves[n];
        assert(moves@.contains(m));
        let s = score_move(board, &m);
        let mut pos: usize = 0;
        while pos < out.len() && keys[pos] >= s
            invariant
                pos <= out@.len(),
                keys@.len() == out@.len(),
                forall|k: int| 0 <= k < out@.len() ==> #[trigger] keys@[k] == order_score(*board, out@[k]),
                forall|k: int| 0 <= k < pos ==> order_score(*board, #[trigger] out@[k]) >= s,
            decreases out@.len() - pos,
        {
            pos = pos + 1;
        }
        let ghost before = out@;
        proof {
            before.insert_ensures(pos as int, m);
            keys@.insert_ensures(pos as int, s);
        }
        out.insert(pos, m);
        keys.insert(pos, s);
        proof {
            vstd::seq_lib::to_multiset_insert(before, pos as int, m);
            assert(moves@.take(n + 1) =~= moves@.take(n as int).push(m));
            moves@.take(n as int).to_multiset_ensures();
        }
        assert forall|k: int| 0 <= k < out@.len() implies #[trigger] keys@[k] == order_score(*board, out@[k]) by {
            if k > pos {
                assert(out@[k] == before[k - 1]);
            }
        }
        assert forall|i: int, j: int|
            0 <= i < j < out@.len() implies order_score(*board, #[trigger] out@[i]) >= order_score(*board, #[trigger] out@[j]) by {
            if j < pos {
            } else if j == pos {
            } else if i > pos {
                assert(out@[i] == before[i - 1]);
                assert(out@[j] == before[j - 1]);
            } else if i == pos {
                assert(out@[j] == before[j - 1]);
                if j - 1 > pos {
                    assert(order_score(*board, before[pos as int]) >= order_score(*board, before[j - 1]));
                }
            } else {
                assert(out@[j] == before[j - 1]);
                assert(order_score(*board, before[i]) >= order_score(*board, before[j - 1]));
            }
        }
        assert forall|x: Move| #[trigger] out@.contains(x) <==> exists|j: int| 0 <= j < n + 1 && moves@[j] == x by {
            if x == m {
                assert(out@[pos as int] == x);
                assert(moves@[n as int] == x);
            }
            if before.contains(x) {
                let k = choose|k: int| 0 <= k < before.len() && before[k] == x;
                if k < pos {
                    assert(out@[k] == x);
                } else {
                    assert(out@[k + 1] == x);
                }
            }
            if out@.contains(x) {
                let k = choose|k: int| 0 <= k < out@.len() && out@[k] == x;
                if k < pos {
                    assert(before[k] == x);
                    assert(before.contains(x));
                } else if k > pos {
                    assert(before[k - 1] == x);
                    assert(before.contains(x));
                }
            }
            if exists|j: int| 0 <= j < n + 1 && moves@[j] == x {
                let j = choose|j: int| 0 <= j < n + 1 && moves@[j] == x;
                if j < n {
                    assert(before.contains(x));
                }
            }
        }
        n = n + 1;
    }
    assert(moves@.take(moves@.len() as int) =~= moves@);
    assert forall|m: Move| #[trigger] out@.contains(m) <==> moves@.contains(m) by {
        if moves@.contains(m) {
            let j = choose|j: int| 0 <= j < moves@.len() && moves@[j] == m;
        }
    }
    out
}
} // verus!
