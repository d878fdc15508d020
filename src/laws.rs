use vstd::prelude::*;
use crate::piece::{Color, PieceType};
use crate::board::{Board, Move};
use crate::search::{index_of, is_best_move, is_chosen_move, lemma_index_of, root_score};

verus! {

/// The position after playing `moves` in order from `b`.
pub open spec fn play(b: Board, moves: Seq<Move>) -> Board
    decreases moves.len(),
{
    if moves.len() == 0 {
        b
    } else {
        play(b.apply_spec(moves[0]), moves.drop_first())
    }
}

/// `m` moves a piece other than a pawn onto an empty square (castling
/// included): it neither moves a pawn nor captures.
pub open spec fn quiet_move(b: Board, m: Move) -> bool {
    match b.at(m.0.0 as int, m.0.1 as int) {
        Some(p) => p.kind != PieceType::Pawn && b.at(m.1.0 as int, m.1.1 as int).is_none(),
        None => false,
    }
}

/// Every move of `moves`, played in order from `b`, is quiet.
pub open spec fn all_quiet(b: Board, moves: Seq<Move>) -> bool
    decreases moves.len(),
{
    moves.len() == 0 || (quiet_move(b, moves[0]) && all_quiet(b.apply_spec(moves[0]), moves.drop_first()))
}

/// `m` advances a pawn by two rows.
pub open spec fn double_advance(b: Board, m: Move) -> bool {
    &&& b.at(m.0.0 as int, m.0.1 as int) matches Some(p) && p.kind == PieceType::Pawn
    &&& (m.1.0 - m.0.0 == 2 || m.0.0 - m.1.0 == 2)
}

/// No legal move leaves the mover's own king in check.
pub proof fn lemma_legal_move_keeps_king_safe(b: Board, color: Color, m: Move)
    requires
        b.legal_move(color, m),
    ensures
        !b.apply_spec(m).in_check(color),
{
}

/// A castling right that is gone stays gone after any move.
pub proof fn lemma_castling_right_stays_lost(b: Board, m: Move, side: Color, kingside: bool)
    requires
        !b.castle_right(side, kingside),
    ensures
        !b.apply_spec(m).castle_right(side, kingside),
{
}

/// A castling right that is gone stays gone for the rest of the game.
pub proof fn lemma_castling_rights_monotonic(b: Board, moves: Seq<Move>, side: Color, kingside: bool)
    requires
        !b.castle_right(side, kingside),
    ensures
        !play(b, moves).castle_right(side, kingside),
    decreases moves.len(),
{
    if moves.len() > 0 {
        lemma_castling_right_stays_lost(b, moves[0], side, kingside);
        lemma_castling_rights_monotonic(b.apply_spec(moves[0]), moves.drop_first(), side, kingside);
    }
}

/// After a valid move the en-passant square is set exactly when that move
/// advanced a pawn by two rows, to the square it passed over; so a square
/// set by one move is gone after the next, whether it was used or not.
pub proof fn lemma_en_passant_lasts_one_ply(b: Board, m: Move)
    requires
        b.valid_move(m),
    ensures
        b.apply_spec(m).en_passant_target == if double_advance(b, m) {
            Some((((m.0.0 + m.1.0) / 2) as usize, m.0.1))
        } else {
            None
        },
{
}

/// A side that is mated has no legal move, so no search proposes one.
pub proof fn lemma_mated_side_has_no_move(b: Board, color: Color)
    requires
        b.checkmate(color),
    ensures
        !b.has_legal_move(color),
{
}

/// A half-move clock of fifty or more is a draw whatever the material.
pub proof fn lemma_fifty_move_draw(b: Board, color: Color)
    requires
        b.half_move_clock >= 50,
    ensures
        b.draw(color),
{
}

/// Each quiet move adds one to the half-move clock (up to its largest
/// value), so fifty quiet plies in a row make the position a draw.
pub proof fn lemma_quiet_moves_count(b: Board, moves: Seq<Move>, color: Color)
    requires
        all_quiet(b, moves),
    ensures
        play(b, moves).half_move_clock >= if b.half_move_clock + moves.len() <= u32::MAX {
            b.half_move_clock + moves.len()
        } else {
            u32::MAX as int
        },
        moves.len() >= 50 ==> play(b, moves).draw(color),
    decreases moves.len(),
{
    if moves.len() > 0 {
        lemma_quiet_moves_count(b.apply_spec(moves[0]), moves.drop_first(), color);
    }
}

/// Any two moves that a search may return for the same position, color and
/// depth score the same: whichever of several equally good moves a parallel
/// search picks, none scores below another's choice.
pub proof fn lemma_best_moves_score_alike(b: Board, color: Color, depth: u32, m1: Move, m2: Move)
    requires
        is_best_move(b, color, depth, m1),
        is_best_move(b, color, depth, m2),
    ensures
        root_score(b, color, depth, m1) == root_score(b, color, depth, m2),
{
}

/// A search of a given position, color and depth can return only one move:
/// its result is the same on every run, and the same whether the root moves
/// are searched in parallel or one after another.
pub proof fn lemma_search_result_unique(b: Board, color: Color, depth: u32, m1: Move, m2: Move)
    requires
        is_chosen_move(b, color, depth, m1),
        is_chosen_move(b, color, depth, m2),
    ensures
        m1 == m2,
{
    lemma_index_of(m1);
    lemma_index_of(m2);
    assert(index_of(m1) == index_of(m2));
}

} // verus!
