use vstd::prelude::*;
use crate::piece::{Color, PieceType, opposite_color, opposite_spec};
use crate::board::{Board, in_bounds, pawn_dir, home_row, pawn_start_row};
use crate::piece::value_spec;
use crate::eval::relative_row;

verus! {

/// Penalty for each pawn beyond the first on a file.
pub const DOUBLED_PENALTY: i32 = 15;

/// Penalty for each pawn with no pawn of its side on a neighbouring file.
pub const ISOLATED_PENALTY: i32 = 10;

/// Bonus per row advanced for a pawn that no enemy pawn can stop.
pub const PASSED_STEP: i32 = 8;

/// Bonus for each pawn of the king's side just in front of it.
pub const SHIELD_BONUS: i32 = 12;

/// Penalty for each enemy piece near the king, by kind.
pub open spec fn danger_weight(kind: PieceType) -> int {
    match kind {
        PieceType::Queen => 8,
        PieceType::Rook => 5,
        PieceType::Bishop => 3,
        PieceType::Knight => 3,
        PieceType::Pawn => 1,
        PieceType::King => 0,
    }
}

/// Extra penalty when more than one enemy piece is near the king.
pub const SWARM_PENALTY: i32 = 20;

/// How many pawns of `color` stand on file `c` among the first `n` rows.
pub open spec fn file_pawns_below(b: Board, color: Color, c: int, n: int) -> int
    decreases n,
{
    if n <= 0 {
        0
    } else {
        file_pawns_below(b, color, c, n - 1) + if b.has_piece(n - 1, c, color, PieceType::Pawn) {
            1int
        } else {
            0int
        }
    }
}

pub open spec fn file_pawns(b: Board, color: Color, c: int) -> int {
    if 0 <= c < 8 {
        file_pawns_below(b, color, c, 8)
    } else {
        0
    }
}

/// Pawns of `color` on files below `n` that are doubled (beyond the first on
/// their file) or isolated (no pawn of theirs on a neighbouring file).
pub open spec fn doubled_below(b: Board, color: Color, n: int) -> int
    decreases n,
{
    if n <= 0 {
        0
    } else {
        let k = file_pawns(b, color, n - 1);
        doubled_below(b, color, n - 1) + if k >= 2 {
            k - 1
        } else {
            0
        }
    }
}

pub open spec fn isolated_below(b: Board, color: Color, n: int) -> int
    decreases n,
{
    if n <= 0 {
        0
    } else {
        let c = n - 1;
        isolated_below(b, color, c) + if file_pawns(b, color, c - 1) == 0 && file_pawns(b, color, c + 1) == 0 {
            file_pawns(b, color, c)
        } else {
            0
        }
    }
}

/// Row `r2` lies ahead of row `r` for a pawn of `color`.
pub open spec fn ahead(color: Color, r: int, r2: int) -> bool {
    match color {
        Color::White => r2 > r,
        Color::Black => r2 < r,
    }
}

/// The pawn of `color` on (r, c) has no enemy pawn ahead of it on its own
/// file or a neighbouring one.
pub open spec fn is_passed(b: Board, color: Color, r: int, c: int) -> bool {
    forall|r2: int, f: int|
        0 <= r2 < 8 && 0 <= f < 8 && c - 1 <= f <= c + 1 && ahead(color, r, r2) ==> !#[trigger] b.has_piece(
            r2,
            f,
            opposite_spec(color),
            PieceType::Pawn,
        )
}

/// The passed-pawn bonus of `color` over the first `n` squares: the rows
/// each passed pawn has advanced.
pub open spec fn passed_below(b: Board, color: Color, n: int) -> int
    decreases n,
{
    if n <= 0 {
        0
    } else {
        let (r, c) = ((n - 1) / 8, (n - 1) % 8);
        passed_below(b, color, n - 1) + if b.has_piece(r, c, color, PieceType::Pawn) && is_passed(b, color, r, c) {
            relative_row(color, r)
        } else {
            0
        }
    }
}

/// The pawn-structure term of `color`.
pub open spec fn pawn_structure(b: Board, color: Color) -> int {
    PASSED_STEP * passed_below(b, color, 64) - DOUBLED_PENALTY * doubled_below(b, color, 8) - ISOLATED_PENALTY
        * isolated_below(b, color, 8)
}

/// Pawns of `color` on the three squares in front of (kr, kc), among files
/// below `n`.
pub open spec fn shield_below(b: Board, color: Color, kr: int, kc: int, n: int) -> int
    decreases n,
{
    if n <= 0 {
        0
    } else {
        let f = n - 1;
        shield_below(b, color, kr, kc, f) + if kc - 1 <= f <= kc + 1 && in_bounds(kr + pawn_dir(color), f)
            && b.has_piece(kr + pawn_dir(color), f, color, PieceType::Pawn) {
            1int
        } else {
            0int
        }
    }
}

/// (r, c) lies within two rows and two columns of (kr, kc).
pub open spec fn near(kr: int, kc: int, r: int, c: int) -> bool {
    -2 <= r - kr <= 2 && -2 <= c - kc <= 2
}

/// Weighted count, and plain count, of enemy pieces of `color`'s king near
/// (kr, kc) over the first `n` squares.
pub open spec fn danger_below(b: Board, color: Color, kr: int, kc: int, n: int) -> (int, int)
    decreases n,
{
    if n <= 0 {
        (0, 0)
    } else {
        let (r, c) = ((n - 1) / 8, (n - 1) % 8);
        let rest = danger_below(b, color, kr, kc, n - 1);
        match b.at(r, c) {
            Some(p) => if p.color != color && near(kr, kc, r, c) && p.kind != PieceType::King {
                (rest.0 + danger_weight(p.kind), rest.1 + 1)
            } else {
                rest
            },
            None => rest,
        }
    }
}

/// The king-safety term of `color`: its pawn shield, less the weight of
/// enemy pieces within two squares of its king, less a further penalty when
/// there is more than one of them. A side without a king scores nothing.
pub open spec fn king_safety(b: Board, color: Color) -> int {
    match b.king_square(color) {
        Some(k) => {
            let d = danger_below(b, color, k.0, k.1, 64);
            SHIELD_BONUS * shield_below(b, color, k.0, k.1, 8) - d.0 - if d.1 > 1 {
                SWARM_PENALTY as int
            } else {
                0int
            }
        },
        None => 0,
    }
}


/// The number of pawns of `color` on each file.
fn file_counts(b: &Board, color: Color) -> (r: [u32; 8])
    ensures
        forall|c: int| 0 <= c < 8 ==> #[trigger] r[c] == file_pawns(*b, color, c) && r[c] <= 8,
{
    let mut counts: [u32; 8] = [0, 0, 0, 0, 0, 0, 0, 0];
    let mut c: usize = 0;
    while c < 8
        invariant
            c <= 8,
            forall|f: int| 0 <= f < c ==> #[trigger] counts[f] == file_pawns(*b, color, f) && counts[f] <= 8,
        decreases 8 - c,
    {
        let mut n: u32 = 0;
        let mut r: usize = 0;
        while r < 8
            invariant
                c < 8,
                r <= 8,
                n == file_pawns_below(*b, color, c as int, r as int),
                n <= r,
            decreases 8 - r,
        {
            if let Some(p) = b.squares[r][c] {
                if p.kind == PieceType::Pawn && p.color == color {
                    n = n + 1;
                }
            }
            r = r + 1;
        }
        counts[c] = n;
        c = c + 1;
    }
    counts
}

/// Whether the pawn of `color` on (r, c) is passed.
fn passed_exec(b: &Board, color: Color, r: usize, c: usize) -> (res: bool)
    requires
        r < 8,
        c < 8,
    ensures
        res == is_passed(*b, color, r as int, c as int),
{
    let enemy = opposite_color(color);
    let lo: usize = if c == 0 {
        0
    } else {
        c - 1
    };
    let hi: usize = if c == 7 {
        7
    } else {
        c + 1
    };
    let mut r2: usize = 0;
    while r2 < 8
        invariant
            r < 8,
            c < 8,
            r2 <= 8,
            enemy == opposite_spec(color),
            lo as int == if c == 0 {
                0
            } else {
                c - 1
            },
            hi as int == if c == 7 {
                7
            } else {
                c + 1
            },
            forall|x: int, f: int|
                0 <= x < r2 && 0 <= f < 8 && c - 1 <= f <= c + 1 && ahead(color, r as int, x) ==> !#[trigger] b.has_piece(
                    x,
                    f,
                    enemy,
                    PieceType::Pawn,
                ),
        decreases 8 - r2,
    {
        let is_ahead = match color {
            Color::White => r2 > r,
            Color::Black => r2 < r,
        };
        if is_ahead {
            let mut f: usize = lo;
            while f <= hi
                invariant
                    r < 8,
                    c < 8,
                    r2 < 8,
                    lo <= f,
                    f <= hi + 1,
                    hi < 8,
                    hi as int == if c == 7 {
                        7
                    } else {
                        c + 1
                    },
                    ahead(color, r as int, r2 as int),
                    enemy == opposite_spec(color),
                    lo as int == if c == 0 {
                        0
                    } else {
                        c - 1
                    },
                    forall|g: int| lo <= g < f ==> !#[trigger] b.has_piece(r2 as int, g, enemy, PieceType::Pawn),
                decreases hi + 1 - f,
            {
                if let Some(p) = b.squares[r2][f] {
                    if p.kind == PieceType::Pawn && p.color == enemy {
                        assert(b.has_piece(r2 as int, f as int, enemy, PieceType::Pawn));
                        assert(!is_passed(*b, color, r as int, c as int));
                        return false;
                    }
                }
                f = f + 1;
            }
        }
        r2 = r2 + 1;
    }
    true
}

/// The pawn-structure term of `color`: passed pawns gain by how far they
/// have come; doubled and isolated pawns are penalised.
pub fn pawn_structure_for(b: &Board, color: Color) -> (res: i32)
    ensures
        res == pawn_structure(*b, color),
        -2000 <= res <= 4000,
{
    let counts = file_counts(b, color);
    let mut doubled: i32 = 0;
    let mut isolated: i32 = 0;
    let mut c: usize = 0;
    while c < 8
        invariant
            c <= 8,
            forall|f: int| 0 <= f < 8 ==> #[trigger] counts[f] == file_pawns(*b, color, f) && counts[f] <= 8,
            doubled == doubled_below(*b, color, c as int),
            isolated == isolated_below(*b, color, c as int),
            0 <= doubled <= 8 * c,
            0 <= isolated <= 8 * c,
        decreases 8 - c,
    {
        let k = counts[c] as i32;
        if k >= 2 {
            doubled = doubled + (k - 1);
        }
        let left: u32 = if c == 0 {
            0
        } else {
            counts[c - 1]
        };
        let right: u32 = if c == 7 {
            0
        } else {
            counts[c + 1]
        };
        if left == 0 && right == 0 {
            isolated = isolated + k;
        }
        c = c + 1;
    }
    let mut passed: i32 = 0;
    let mut i: usize = 0;
    while i < 64
        invariant
            i <= 64,
            passed == passed_below(*b, color, i as int),
            0 <= passed <= 7 * i,
        decreases 64 - i,
    {
        let (r, c) = (i / 8, i % 8);
        if let Some(p) = b.squares[r][c] {
            if p.kind == PieceType::Pawn && p.color == color && passed_exec(b, color, r, c) {
                let rel: i32 = match color {
                    Color::White => r as i32,
                    Color::Black => 7 - r as i32,
                };
                passed = passed + rel;
            }
        }
        i = i + 1;
    }
    PASSED_STEP * passed - DOUBLED_PENALTY * doubled - ISOLATED_PENALTY * isolated
}

/// The king-safety term of `color`.
pub fn king_safety_for(b: &Board, color: Color) -> (res: i32)
    ensures
        res == king_safety(*b, color),
        -600 <= res <= 36,
{
    let (kr, kc) = match b.find_king(color) {
        Some(k) => k,
        None => {
            return 0;
        },
    };
    let front: isize = match color {
        Color::White => kr as isize + 1,
        Color::Black => kr as isize - 1,
    };
    let mut shield: i32 = 0;
    let mut f: usize = 0;
    while f < 8
        invariant
            f <= 8,
            kr < 8,
            kc < 8,
            front == kr + pawn_dir(color),
            shield == shield_below(*b, color, kr as int, kc as int, f as int),
            0 <= shield <= f,
            shield <= if f <= kc - 1 {
                0
            } else if f >= kc + 2 {
                3
            } else {
                f - (kc - 1)
            },
        decreases 8 - f,
    {
        if f + 1 >= kc && f <= kc + 1 && 0 <= front && front < 8 {
            if let Some(p) = b.squares[front as usize][f] {
                if p.kind == PieceType::Pawn && p.color == color {
                    shield = shield + 1;
                }
            }
        }
        f = f + 1;
    }
    let mut weight: i32 = 0;
    let mut count: i32 = 0;
    let mut i: usize = 0;
    while i < 64
        invariant
            i <= 64,
            kr < 8,
            kc < 8,
            (weight as int, count as int) == danger_below(*b, color, kr as int, kc as int, i as int),
            0 <= weight <= 8 * count,
            0 <= count <= i,
        decreases 64 - i,
    {
        let (r, c) = (i / 8, i % 8);
        if let Some(p) = b.squares[r][c] {
            let close = r + 2 >= kr && r <= kr + 2 && c + 2 >= kc && c <= kc + 2;
            if p.color != color && close && p.kind != PieceType::King {
                let w: i32 = match p.kind {
                    PieceType::Queen => 8,
                    PieceType::Rook => 5,
                    PieceType::Bishop => 3,
                    PieceType::Knight => 3,
                    PieceType::Pawn => 1,
                    PieceType::King => 0,
                };
                weight = weight + w;
                count = count + 1;
            }
        }
        i = i + 1;
    }
    let swarm: i32 = if count > 1 {
        SWARM_PENALTY
    } else {
        0
    };
    SHIELD_BONUS * shield - weight - swarm
}


/// The non-king material of both sides at the start of a game.
pub const INITIAL_MATERIAL: i32 = 7800;

/// Penalty for a queen that has left its square in the opening.
pub const EARLY_QUEEN_PENALTY: i32 = 20;

/// Bonus for each minor piece off the back rank and each central pawn
/// advanced, in the opening.
pub const DEVELOPMENT_BONUS: i32 = 10;

/// The value of the non-king pieces of both sides on the first `n` squares.
pub open spec fn non_king_material_below(b: Board, n: int) -> int
    decreases n,
{
    if n <= 0 {
        0
    } else {
        non_king_material_below(b, n - 1) + match b.at((n - 1) / 8, (n - 1) % 8) {
            Some(p) => if p.kind == PieceType::King {
                0
            } else {
                value_spec(p.kind)
            },
            None => 0,
        }
    }
}

/// The game is in its opening phase while at least three quarters of the
/// initial non-king material is on the board.
pub open spec fn in_opening(b: Board) -> bool {
    4 * non_king_material_below(b, 64) >= 3 * INITIAL_MATERIAL
}

/// The development score of the piece of `color` on (r, c), if any.
pub open spec fn development_at(b: Board, color: Color, r: int, c: int) -> int {
    match b.at(r, c) {
        Some(p) => if p.color != color {
            0
        } else {
            match p.kind {
                PieceType::Queen => if r == home_row(color) && c == 3 {
                    0
                } else {
                    -EARLY_QUEEN_PENALTY
                },
                PieceType::Knight | PieceType::Bishop => if r != home_row(color) {
                    DEVELOPMENT_BONUS as int
                } else {
                    0
                },
                PieceType::Pawn => if (c == 3 || c == 4) && r != pawn_start_row(color) {
                    DEVELOPMENT_BONUS as int
                } else {
                    0
                },
                _ => 0,
            }
        },
        None => 0,
    }
}

pub open spec fn development_below(b: Board, color: Color, n: int) -> int
    decreases n,
{
    if n <= 0 {
        0
    } else {
        development_below(b, color, n - 1) + development_at(b, color, (n - 1) / 8, (n - 1) % 8)
    }
}

/// The opening term from White's side: development of White less that of
/// Black while the game is in its opening phase, otherwise nothing.
pub open spec fn opening_term(b: Board) -> int {
    if in_opening(b) {
        development_below(b, Color::White, 64) - development_below(b, Color::Black, 64)
    } else {
        0
    }
}

fn development_exec(b: &Board, color: Color, r: usize, c: usize) -> (res: i32)
    requires
        r < 8,
        c < 8,
    ensures
        res == development_at(*b, color, r as int, c as int),
        -20 <= res <= 10,
{
    let home: usize = match color {
        Color::White => 0,
        Color::Black => 7,
    };
    let start: usize = match color {
        Color::White => 1,
        Color::Black => 6,
    };
    match b.squares[r][c] {
        Some(p) => if p.color != color {
            0
        } else {
            match p.kind {
                PieceType::Queen => if r == home && c == 3 {
                    0
                } else {
                    -EARLY_QUEEN_PENALTY
                },
                PieceType::Knight | PieceType::Bishop => if r != home {
                    DEVELOPMENT_BONUS
                } else {
                    0
                },
                PieceType::Pawn => if (c == 3 || c == 4) && r != start {
                    DEVELOPMENT_BONUS
                } else {
                    0
                },
                _ => 0,
            }
        },
        None => 0,
    }
}

/// The opening term of `b` from White's side.
pub fn opening_term_of(b: &Board) -> (res: i32)
    ensures
        res == opening_term(*b),
        -2000 <= res <= 2000,
{
    let mut material: i32 = 0;
    let mut white: i32 = 0;
    let mut black: i32 = 0;
    let mut i: usize = 0;
    while i < 64
        invariant
            i <= 64,
            material == non_king_material_below(*b, i as int),
            0 <= material <= 900 * i,
            white == development_below(*b, Color::White, i as int),
            black == development_below(*b, Color::Black, i as int),
            -20 * i <= white <= 10 * i,
            -20 * i <= black <= 10 * i,
        decreases 64 - i,
    {
        let (r, c) = (i / 8, i % 8);
        if let Some(p) = b.squares[r][c] {
            if p.kind != PieceType::King {
                material = material + crate::piece::get_piece_value(&p);
            }
        }
        white = white + development_exec(b, Color::White, r, c);
        black = black + development_exec(b, Color::Black, r, c);
        i = i + 1;
    }
    if 4 * material >= 3 * INITIAL_MATERIAL {
        white - black
    } else {
        0
    }
}
} // verus!
