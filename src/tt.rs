use vstd::prelude::*;
use crate::piece::{Color, Piece};
use crate::board::Board;
use crate::search::{MATE, node_value};
use crate::zobrist::{ZobristKeys, position_key};

verus! {

/// How a stored score relates to the true value of its position.
#[derive(Clone, Copy, PartialEq, Eq, Structural, Debug)]
pub enum Bound {
    Exact,
    LowerBound,
    UpperBound,
}

/// A search result: the position with its side to move, the depths searched,
/// the score found and how it bounds the position's value.
#[derive(Clone, Copy, Debug)]
pub struct TranspositionEntry {
    pub board: Board,
    pub color: Color,
    pub depth: u32,
    pub qdepth: u32,
    pub score: i32,
    pub bound: Bound,
}

impl TranspositionEntry {
    /// The score is within the mate bounds and is what `bound` says of the
    /// value of the stored position at the stored depths.
    pub open spec fn sound(self) -> bool {
        let v = node_value(self.board, self.color, self.depth as nat, self.qdepth as nat);
        &&& -MATE <= self.score <= MATE
        &&& match self.bound {
            Bound::Exact => v == self.score,
            Bound::LowerBound => v >= self.score,
            Bound::UpperBound => v <= self.score,
        }
    }
}

/// The bound kind of a score found with window (alpha, beta): at or below
/// alpha it is an upper bound, at or above beta a lower bound, else exact.
pub open spec fn bound_for(score: int, alpha: int, beta: int) -> Bound {
    if score <= alpha {
        Bound::UpperBound
    } else if score >= beta {
        Bound::LowerBound
    } else {
        Bound::Exact
    }
}

/// A cache of search results with a fixed number of slots. A position goes
/// to the slot that its key selects, evicting whatever stood there. A probe
/// only answers for the very position, side to move and depths it is asked
/// about: two positions whose keys collide are never confused, and a result
/// of a deeper search, which is the value of another search, is not reused.
pub struct TranspositionTable {
    keys: ZobristKeys,
    slots: Vec<Option<TranspositionEntry>>,
}

fn same_square(a: Option<Piece>, b: Option<Piece>) -> (r: bool)
    ensures
        r == (a == b),
{
    match (a, b) {
        (Some(p), Some(q)) => p.color == q.color && p.kind == q.kind,
        (None, None) => true,
        _ => false,
    }
}

/// Whether two boards are equal in every field.
pub fn same_board(a: &Board, b: &Board) -> (r: bool)
    ensures
        r == (*a == *b),
{
    let mut row: usize = 0;
    while row < 8
        invariant
            row <= 8,
            forall|i: int| 0 <= i < row ==> a.squares[i] == b.squares[i],
        decreases 8 - row,
    {
        let mut col: usize = 0;
        while col < 8
            invariant
                row < 8,
                col <= 8,
                forall|i: int| 0 <= i < row ==> a.squares[i] == b.squares[i],
                forall|j: int| 0 <= j < col ==> a.squares[row as int][j] == b.squares[row as int][j],
            decreases 8 - col,
        {
            if !same_square(a.squares[row][col], b.squares[row][col]) {
                return false;
            }
            col = col + 1;
        }
        assert(a.squares[row as int] =~= b.squares[row as int]);
        row = row + 1;
    }
    assert(a.squares =~= b.squares);
    let ep_same = match (a.en_passant_target, b.en_passant_target) {
        (Some(s), Some(t)) => s.0 == t.0 && s.1 == t.1,
        (None, None) => true,
        _ => false,
    };
    ep_same && a.half_move_clock == b.half_move_clock && a.white_castle_possible.0 == b.white_castle_possible.0
        && a.white_castle_possible.1 == b.white_castle_possible.1 && a.black_castle_possible.0
        == b.black_castle_possible.0 && a.black_castle_possible.1 == b.black_castle_possible.1
}

impl TranspositionTable {
    pub closed spec fn capacity(&self) -> nat {
        self.slots@.len()
    }

    /// The slot that the position `board` with `color` to move goes to.
    pub closed spec fn slot_index(&self, board: Board, color: Color) -> int {
        (position_key(self.keys@, board, color) % (self.slots@.len() as u64)) as int
    }

    /// What the table holds for this position, side to move and depths: the
    /// entry in the position's slot when it was stored for exactly these.
    pub closed spec fn lookup(&self, board: Board, color: Color, depth: u32, qdepth: u32) -> Option<TranspositionEntry> {
        match self.slots@[self.slot_index(board, color)] {
            Some(e) => if e.board == board && e.color == color && e.depth == depth && e.qdepth == qdepth {
                Some(e)
            } else {
                None
            },
            None => None,
        }
    }

    /// Every stored entry is sound.
    pub closed spec fn wf(&self) -> bool {
        &&& self.keys.wf()
        &&& self.slots@.len() > 0
        &&& forall|i: int| 0 <= i < self.slots@.len() ==> (#[trigger] self.slots@[i] matches Some(e) ==> e.sound())
    }

    /// An empty table with `capacity` slots (one at least).
    pub fn new(capacity: usize) -> (r: TranspositionTable)
        ensures
            r.wf(),
            forall|b: Board, c: Color, d: u32, q: u32| #[trigger] r.lookup(b, c, d, q) is None,
            r.capacity() == if capacity == 0 {
                1
            } else {
                capacity
            },
    {
        let n = if capacity == 0 {
            1
        } else {
            capacity
        };
        let mut slots: Vec<Option<TranspositionEntry>> = Vec::new();
        while slots.len() < n
            invariant
                slots@.len() <= n,
                forall|i: int| 0 <= i < slots@.len() ==> #[trigger] slots@[i] is None,
            decreases n - slots@.len(),
        {
            slots.push(None);
        }
        let r = TranspositionTable { keys: ZobristKeys::new(), slots };
        assert forall|b: Board, c: Color, d: u32, q: u32| #[trigger] r.lookup(b, c, d, q) is None by {
            assert(0 <= r.slot_index(b, c) < r.slots@.len());
        }
        r
    }

    fn slot_of(&self, board: &Board, color: Color) -> (r: usize)
        requires
            self.wf(),
        ensures
            r < self.capacity(),
            r as int == self.slot_index(*board, color),
    {
        let h = self.keys.compute_hash(board, color);
        (h % (self.slots.len() as u64)) as usize
    }

    /// The stored result for exactly this position, side to move and depths.
    pub fn probe(&self, board: &Board, color: Color, depth: u32, qdepth: u32) -> (r: Option<TranspositionEntry>)
        requires
            self.wf(),
        ensures
            r == self.lookup(*board, color, depth, qdepth),
            r matches Some(e) ==> e.sound() && e.board == *board && e.color == color && e.depth == depth
                && e.qdepth == qdepth,
    {
        let i = self.slot_of(board, color);
        match self.slots[i] {
            Some(e) => {
                if e.color == color && e.depth == depth && e.qdepth == qdepth && same_board(&e.board, board) {
                    Some(e)
                } else {
                    None
                }
            },
            None => None,
        }
    }

    /// Stores `entry` in its slot, evicting what stood there.
    pub fn store(&mut self, entry: TranspositionEntry)
        requires
            old(self).wf(),
            entry.sound(),
        ensures
            final(self).wf(),
            final(self).capacity() == old(self).capacity(),
            final(self).lookup(entry.board, entry.color, entry.depth, entry.qdepth) == Some(entry),
    {
        let i = self.slot_of(&entry.board, entry.color);
        self.slots.set(i, Some(entry));
    }
}

} // verus!
