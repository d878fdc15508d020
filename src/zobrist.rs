use vstd::prelude::*;
use crate::piece::{Color, Piece, PieceType};
use crate::board::Board;

verus! {

/// Keys for the twelve (kind, color) pairs on 64 squares, then one for
/// Black to move, four for the castling rights and eight for the
/// en-passant column.
pub const ZOBRIST_LEN: usize = 781;

pub const SIDE_KEY: usize = 768;

pub const CASTLE_KEY: usize = 769;

pub const EP_KEY: usize = 773;

/// The seed from which the keys are drawn.
pub const ZOBRIST_SEED: u64 = 0x2545_f491_4f6c_dd1d;

/// The table of 64-bit keys that a position's key is folded from.
pub struct ZobristKeys {
    keys: Vec<u64>,
}

pub open spec fn kind_index(kind: PieceType) -> int {
    match kind {
        PieceType::King => 0,
        PieceType::Queen => 1,
        PieceType::Rook => 2,
        PieceType::Bishop => 3,
        PieceType::Knight => 4,
        PieceType::Pawn => 5,
    }
}

pub open spec fn color_index(color: Color) -> int {
    match color {
        Color::White => 0,
        Color::Black => 1,
    }
}

/// Where the key of piece `p` on square number `sq` sits in the table.
pub open spec fn piece_key_index(p: Piece, sq: int) -> int {
    (kind_index(p.kind) * 2 + color_index(p.color)) * 64 + sq
}

/// The XOR of the keys of the pieces on the first `n` squares.
pub open spec fn placement_key_below(keys: Seq<u64>, b: Board, n: int) -> u64
    decreases n,
{
    if n <= 0 {
        0
    } else {
        placement_key_below(keys, b, n - 1) ^ match b.at((n - 1) / 8, (n - 1) % 8) {
            Some(p) => keys[piece_key_index(p, n - 1)],
            None => 0u64,
        }
    }
}

pub open spec fn flag_key(keys: Seq<u64>, on: bool, i: int) -> u64 {
    if on {
        keys[i]
    } else {
        0u64
    }
}

/// The key of a position with `color` to move: piece placement, side to
/// move, castling rights and en-passant column all folded in.
pub open spec fn position_key(keys: Seq<u64>, b: Board, color: Color) -> u64 {
    placement_key_below(keys, b, 64) ^ flag_key(keys, color == Color::Black, SIDE_KEY as int) ^ flag_key(
        keys,
        b.white_castle_possible.0,
        CASTLE_KEY as int,
    ) ^ flag_key(keys, b.white_castle_possible.1, CASTLE_KEY + 1) ^ flag_key(
        keys,
        b.black_castle_possible.0,
        CASTLE_KEY + 2,
    ) ^ flag_key(keys, b.black_castle_possible.1, CASTLE_KEY + 3) ^ match b.en_passant_target {
        Some(t) => if t.1 < 8 {
            keys[EP_KEY + t.1 as int]
        } else {
            0u64
        },
        None => 0u64,
    }
}

/// The increment of the splitmix64 generator.
pub const SPLITMIX_STEP: u64 = 0x9e37_79b9_7f4a_7c15;

/// The output function of the splitmix64 generator.
pub open spec fn splitmix_mix(s: u64) -> u64 {
    let z1 = (s ^ (s >> 30u64)).wrapping_mul(0xbf58_476d_1ce4_e5b9);
    let z2 = (z1 ^ (z1 >> 27u64)).wrapping_mul(0x94d0_49bb_1331_11eb);
    z2 ^ (z2 >> 31u64)
}

/// The generator's state after `n` steps from the seed.
pub open spec fn splitmix_state(n: nat) -> u64
    decreases n,
{
    if n == 0 {
        ZOBRIST_SEED
    } else {
        splitmix_state((n - 1) as nat).wrapping_add(SPLITMIX_STEP)
    }
}

/// Key number `i` of the table: the generator's output at step `i + 1`.
pub open spec fn zobrist_key(i: nat) -> u64 {
    splitmix_mix(splitmix_state(i + 1))
}

/// One step of the splitmix64 generator: the next state and its output.
fn splitmix_next(state: u64) -> (r: (u64, u64))
    ensures
        r.0 == state.wrapping_add(SPLITMIX_STEP),
        r.1 == splitmix_mix(r.0),
{
    let s = state.wrapping_add(SPLITMIX_STEP);
    let mut z = s;
    z = (z ^ (z >> 30u64)).wrapping_mul(0xbf58_476d_1ce4_e5b9);
    z = (z ^ (z >> 27u64)).wrapping_mul(0x94d0_49bb_1331_11eb);
    (s, z ^ (z >> 31u64))
}

impl ZobristKeys {
    pub closed spec fn view(&self) -> Seq<u64> {
        self.keys@
    }

    pub closed spec fn wf(&self) -> bool {
        self.keys@.len() == ZOBRIST_LEN
    }

    /// Draws the whole table from a fixed seed with the splitmix64
    /// generator, so that keys are the same from run to run.
    pub fn new() -> (r: ZobristKeys)
        ensures
            r.wf(),
            forall|i: int| 0 <= i < ZOBRIST_LEN ==> #[trigger] r@[i] == zobrist_key(i as nat),
    {
        let mut keys: Vec<u64> = Vec::new();
        let mut state = ZOBRIST_SEED;
        while keys.len() < ZOBRIST_LEN
            invariant
                keys@.len() <= ZOBRIST_LEN,
                state == splitmix_state(keys@.len() as nat),
                forall|i: int| 0 <= i < keys@.len() ==> #[trigger] keys@[i] == zobrist_key(i as nat),
            decreases ZOBRIST_LEN - keys@.len(),
        {
            let (next, out) = splitmix_next(state);
            state = next;
            keys.push(out);
        }
        ZobristKeys { keys }
    }

    /// The key of `board` with `color` to move.
    pub fn compute_hash(&self, board: &Board, color: Color) -> (r: u64)
        requires
            self.wf(),
        ensures
            r == position_key(self@, *board, color),
    {
        let mut h: u64 = 0;
        let mut i: usize = 0;
        while i < 64
            invariant
                i <= 64,
                self.wf(),
                h == placement_key_below(self@, *board, i as int),
            decreases 64 - i,
        {
            if let Some(p) = board.squares[i / 8][i % 8] {
                let kind: usize = match p.kind {
                    PieceType::King => 0,
                    PieceType::Queen => 1,
                    PieceType::Rook => 2,
                    PieceType::Bishop => 3,
                    PieceType::Knight => 4,
                    PieceType::Pawn => 5,
                };
                let side: usize = match p.color {
                    Color::White => 0,
                    Color::Black => 1,
                };
                h = h ^ self.keys[(kind * 2 + side) * 64 + i];
            } else {
                h = h ^ 0u64;
            }
            i = i + 1;
        }
        if color == Color::Black {
            h = h ^ self.keys[SIDE_KEY];
        } else {
            h = h ^ 0u64;
        }
        h = h ^ if board.white_castle_possible.0 {
            self.keys[CASTLE_KEY]
        } else {
            0u64
        };
        h = h ^ if board.white_castle_possible.1 {
            self.keys[CASTLE_KEY + 1]
        } else {
            0u64
        };
        h = h ^ if board.black_castle_possible.0 {
            self.keys[CASTLE_KEY + 2]
        } else {
            0u64
        };
        h = h ^ if board.black_castle_possible.1 {
            self.keys[CASTLE_KEY + 3]
        } else {
            0u64
        };
        h = h ^ match board.en_passant_target {
            Some(t) => if t.1 < 8 {
                self.keys[EP_KEY + t.1]
            } else {
                0u64
            },
            None => 0u64,
        };
        h
    }
}

} // verus!
