use vstd::prelude::*;
use rayon::iter::{IndexedParallelIterator, IntoParallelRefIterator, ParallelIterator};
use crate::piece::{Color, opposite_color, opposite_spec};
use crate::board::{Board, Move, in_bounds};
use crate::eval::{EVAL_BOUND, evaluate_for, evaluation_for, order_moves};
use crate::tt::{Bound, TranspositionEntry, TranspositionTable};

verus! {

/// The score of a side that is mated or has lost its king.
pub const MATE: i32 = 1_000_000_000;

/// The widest search window: its negation is still an `i32`.
pub const INF: i32 = 2_147_483_647;

/// How many plies of captures are searched beyond the nominal depth.
pub const QUIESCENCE_DEPTH: u32 = 2;

/// The move with number `i` in 0..4096: from-square and to-square in
/// row-major order.
pub open spec fn move_index(i: int) -> Move {
    (((i / 512) as usize, ((i / 64) % 8) as usize), (((i / 8) % 8) as usize, (i % 8) as usize))
}

/// The number of a move with all coordinates on the board.
pub open spec fn index_of(m: Move) -> int {
    ((m.0.0 * 8 + m.0.1) * 8 + m.1.0) * 8 + m.1.1
}

/// A move that a node searches: a legal move of `color`, and a capture when
/// only captures are searched.
pub open spec fn eligible(b: Board, color: Color, captures: bool, m: Move) -> bool {
    b.legal_move(color, m) && (!captures || b.at(m.1.0 as int, m.1.1 as int).is_some())
}

/// Only captures are searched once the nominal depth is used up.
pub open spec fn captures_phase(depth: nat) -> bool {
    depth == 0
}

/// The minimax value of a position for `color` to move, searched `depth`
/// plies with every legal move and then up to `qdepth` plies of captures
/// only. A side without a king has lost; a side without a legal move is
/// mated when in check and drawn otherwise. In the capture phase the side to
/// move may always stand on the static evaluation.
///
/// The capture phase searches every legal capture. It has no delta pruning:
/// which captures that would skip depends on the search window, so the
/// value searched would no longer be a function of the position, and a table
/// entry or a root score could not be stated of it. Nor does it fall back to
/// quiet moves when no capture is available: the side to move then stands on
/// the static evaluation, which keeps the extension to captures only and its
/// cost bounded.
pub open spec fn node_value(b: Board, color: Color, depth: nat, qdepth: nat) -> int
    decreases depth, qdepth, 4097int,
{
    if b.king_square(color).is_none() {
        -MATE
    } else if depth == 0 {
        let stand = evaluation_for(b, color);
        if qdepth == 0 {
            stand
        } else {
            match best_reply(b, color, depth, qdepth, 0) {
                Some(v) => if v > stand {
                    v
                } else {
                    stand
                },
                None => stand,
            }
        }
    } else {
        match best_reply(b, color, depth, qdepth, 0) {
            Some(v) => v,
            None => if b.in_check(color) {
                -MATE
            } else {
                0
            },
        }
    }
}

/// The value of move `m` to `color`: the negated value of the position it
/// leads to, one ply shallower (or one capture ply shallower).
pub open spec fn reply_score(b: Board, color: Color, depth: nat, qdepth: nat, m: Move) -> int
    decreases depth, qdepth, 0int,
{
    if depth > 0 {
        -node_value(b.apply_spec(m), opposite_spec(color), (depth - 1) as nat, qdepth)
    } else if qdepth > 0 {
        -node_value(b.apply_spec(m), opposite_spec(color), 0, (qdepth - 1) as nat)
    } else {
        0
    }
}

/// The best `reply_score` among the searched moves numbered `i` and above.
pub open spec fn best_reply(b: Board, color: Color, depth: nat, qdepth: nat, i: int) -> Option<int>
    decreases depth, qdepth, 4096 - i,
{
    if i < 0 || i >= 4096 || (depth == 0 && qdepth == 0) {
        None
    } else {
        let rest = best_reply(b, color, depth, qdepth, i + 1);
        let m = move_index(i);
        if eligible(b, color, captures_phase(depth), m) {
            let w = reply_score(b, color, depth, qdepth, m);
            match rest {
                Some(v) => Some(
                    if v > w {
                        v
                    } else {
                        w
                    },
                ),
                None => Some(w),
            }
        } else {
            rest
        }
    }
}

pub proof fn lemma_index_of(m: Move)
    requires
        in_bounds(m.0.0 as int, m.0.1 as int),
        in_bounds(m.1.0 as int, m.1.1 as int),
    ensures
        0 <= index_of(m) < 4096,
        move_index(index_of(m)) == m,
{
    let (a, b, c, d) = (m.0.0 as int, m.0.1 as int, m.1.0 as int, m.1.1 as int);
    let i = index_of(m);
    assert(i == 512 * a + 64 * b + 8 * c + d);
    assert(i / 512 == a);
    assert((i / 64) % 8 == b);
    assert((i / 8) % 8 == c);
    assert(i % 8 == d);
}

proof fn lemma_best_reply_from(b: Board, color: Color, depth: nat, qdepth: nat, i: int)
    requires
        0 <= i <= 4096,
        !(depth == 0 && qdepth == 0),
    ensures
        best_reply(b, color, depth, qdepth, i) is None <==> forall|j: int|
            i <= j < 4096 ==> !#[trigger] eligible(b, color, captures_phase(depth), move_index(j)),
        best_reply(b, color, depth, qdepth, i) matches Some(v) ==> {
            &&& forall|j: int|
                i <= j < 4096 && #[trigger] eligible(b, color, captures_phase(depth), move_index(j)) ==> reply_score(
                    b,
                    color,
                    depth,
                    qdepth,
                    move_index(j),
                ) <= v
            &&& exists|j: int|
                i <= j < 4096 && #[trigger] eligible(b, color, captures_phase(depth), move_index(j)) && reply_score(
                    b,
                    color,
                    depth,
                    qdepth,
                    move_index(j),
                ) == v
        },
    decreases 4096 - i,
{
    if i < 4096 {
        lemma_best_reply_from(b, color, depth, qdepth, i + 1);
    }
}

/// What `best_reply` from the first move means: `None` when no move is
/// searched; otherwise the largest `reply_score` of a searched move.
pub proof fn lemma_best_reply(b: Board, color: Color, depth: nat, qdepth: nat)
    requires
        !(depth == 0 && qdepth == 0),
    ensures
        best_reply(b, color, depth, qdepth, 0) is None <==> forall|m: Move|
            !#[trigger] eligible(b, color, captures_phase(depth), m),
        best_reply(b, color, depth, qdepth, 0) matches Some(v) ==> {
            &&& forall|m: Move|
                #[trigger] eligible(b, color, captures_phase(depth), m) ==> reply_score(b, color, depth, qdepth, m) <= v
            &&& exists|m: Move|
                #[trigger] eligible(b, color, captures_phase(depth), m) && reply_score(b, color, depth, qdepth, m) == v
        },
{
    lemma_best_reply_from(b, color, depth, qdepth, 0);
    let caps = captures_phase(depth);
    assert forall|m: Move| #[trigger] eligible(b, color, caps, m) implies 0 <= index_of(m) < 4096
        && move_index(index_of(m)) == m by {
        lemma_index_of(m);
    }
    if best_reply(b, color, depth, qdepth, 0) is None {
        assert forall|m: Move| !#[trigger] eligible(b, color, caps, m) by {
            if eligible(b, color, caps, m) {
                assert(!eligible(b, color, caps, move_index(index_of(m))));
            }
        }
    } else {
        let j = choose|j: int| 0 <= j < 4096 && !#[trigger] eligible(b, color, caps, move_index(j)) == false;
        assert(eligible(b, color, caps, move_index(j)));
    }
    if let Some(v) = best_reply(b, color, depth, qdepth, 0) {
        assert forall|m: Move| #[trigger] eligible(b, color, caps, m) implies reply_score(b, color, depth, qdepth, m) <= v by {
            assert(eligible(b, color, caps, move_index(index_of(m))));
        }
        let j = choose|j: int|
            0 <= j < 4096 && #[trigger] eligible(b, color, caps, move_index(j)) && reply_score(
                b,
                color,
                depth,
                qdepth,
                move_index(j),
            ) == v;
        assert(eligible(b, color, caps, move_index(j)));
    }
}


/// What a fail-soft search with window (alpha, beta) promises of its result
/// `r` for a position of value `v`: at or below alpha, an upper bound; at or
/// above beta, a lower bound; strictly inside, the value itself.
pub open spec fn fail_soft(v: int, r: int, alpha: int, beta: int) -> bool {
    &&& r <= alpha ==> v <= r
    &&& r >= beta ==> v >= r
    &&& alpha < r < beta ==> v == r
}

/// Records `best` for this node in the table and returns it.
fn finish(
    board: &Board,
    color: Color,
    depth: u32,
    qdepth: u32,
    alpha: i32,
    beta: i32,
    best: i32,
    tt: &mut TranspositionTable,
) -> (r: i32)
    requires
        old(tt).wf(),
        -MATE <= best <= MATE,
        fail_soft(node_value(*board, color, depth as nat, qdepth as nat), best as int, alpha as int, beta as int),
    ensures
        final(tt).wf(),
        r == best,
{
    let bound = if best <= alpha {
        Bound::UpperBound
    } else if best >= beta {
        Bound::LowerBound
    } else {
        Bound::Exact
    };
    tt.store(TranspositionEntry { board: *board, color, depth, qdepth, score: best, bound });
    best
}

/// Fail-soft alpha-beta search in negamax form of `board` with `color` to
/// move: `depth` plies of all legal moves, ordered by `order_moves`, then up
/// to `qdepth` plies of captures in which the side to move may stand on the
/// static evaluation. A side without a king has lost. Results are cached in
/// `tt`: a stored bound cuts the node off or narrows its window, and each
/// result is stored with its bound kind against the window asked for.
pub fn alpha_beta(
    board: &Board,
    depth: u32,
    qdepth: u32,
    alpha: i32,
    beta: i32,
    color: Color,
    tt: &mut TranspositionTable,
) -> (r: i32)
    requires
        old(tt).wf(),
        -INF <= alpha < beta,
    ensures
        final(tt).wf(),
        -MATE <= r <= MATE,
        fail_soft(node_value(*board, color, depth as nat, qdepth as nat), r as int, alpha as int, beta as int),
    decreases depth, qdepth, 1int,
{
    if board.find_king(color).is_none() {
        return -MATE;
    }
    let mut lo = alpha;
    let mut hi = beta;
    match tt.probe(board, color, depth, qdepth) {
        Some(e) => match e.bound {
            Bound::Exact => {
                return e.score;
            },
            Bound::LowerBound => {
                if e.score >= beta {
                    return e.score;
                }
                if e.score > lo {
                    lo = e.score;
                }
            },
            Bound::UpperBound => {
                if e.score <= alpha {
                    return e.score;
                }
                if e.score < hi {
                    hi = e.score;
                }
            },
        },
        None => {},
    }
    let r = search_node(board, depth, qdepth, lo, hi, color, tt);
    finish(board, color, depth, qdepth, alpha, beta, r, tt)
}

/// The body of `alpha_beta` for a side that has a king, with window
/// (alpha, beta) and no table lookup of its own.
fn search_node(
    board: &Board,
    depth: u32,
    qdepth: u32,
    alpha: i32,
    beta: i32,
    color: Color,
    tt: &mut TranspositionTable,
) -> (r: i32)
    requires
        old(tt).wf(),
        -INF <= alpha < beta,
        board.king_square(color) is Some,
    ensures
        final(tt).wf(),
        -MATE <= r <= MATE,
        fail_soft(node_value(*board, color, depth as nat, qdepth as nat), r as int, alpha as int, beta as int),
    decreases depth, qdepth, 0int,
{
    let ghost d = depth as nat;
    let ghost q = qdepth as nat;
    let captures = depth == 0;
    let mut best: i32 = 0;
    let mut any = false;
    let mut a = alpha;
    let mut stand: i32 = 0;
    if captures {
        stand = evaluate_for(board, color);
        if qdepth == 0 {
            return stand;
        }
        proof {
            lemma_best_reply(*board, color, d, q);
        }
        if stand >= beta {
            return stand;
        }
        best = stand;
        any = true;
        if stand > a {
            a = stand;
        }
    }
    let moves = if captures {
        board.generate_legal_captures(color)
    } else {
        board.generate_legal_moves(color)
    };
    assert forall|m: Move| #[trigger] moves@.contains(m) <==> eligible(*board, color, captures_phase(d), m) by {}
    assert forall|m: Move| #[trigger] moves@.contains(m) implies m.1.0 < 8 && m.1.1 < 8 by {}
    let ordered = order_moves(board, &moves);
    let opponent = opposite_color(color);
    let mut i: usize = 0;
    while i < ordered.len()
        invariant
            tt.wf(),
            d == depth as nat,
            q == qdepth as nat,
            captures == (depth == 0),
            captures ==> qdepth > 0,
            board.king_square(color) is Some,
            opponent == opposite_spec(color),
            i <= ordered@.len(),
            forall|m: Move| #[trigger] ordered@.contains(m) <==> eligible(*board, color, captures_phase(d), m),
            -INF <= alpha <= a < beta,
            !any ==> a == alpha,
            any ==> -MATE <= best <= MATE && a >= best && (a == alpha || a == best),
            captures ==> any && best >= stand && -EVAL_BOUND <= stand <= EVAL_BOUND,
            !captures ==> (any <==> i > 0),
            forall|j: int| 0 <= j < i ==> reply_score(*board, color, d, q, #[trigger] ordered@[j]) <= best,
            any && best > alpha ==> ((captures && best == stand) || exists|j: int|
                0 <= j < i && reply_score(*board, color, d, q, #[trigger] ordered@[j]) == best),
        decreases ordered@.len() - i,
    {
        let m = ordered[i];
        assert(ordered@.contains(m));
        let mut child = *board;
        child.apply_move(m);
        let v0 = if captures {
            alpha_beta(&child, 0, qdepth - 1, -beta, -a, opponent, tt)
        } else {
            alpha_beta(&child, depth - 1, qdepth, -beta, -a, opponent, tt)
        };
        let v = -v0;
        let ghost w = reply_score(*board, color, d, q, m);
        assert(v0 <= -beta ==> w >= v);
        let ghost old_a = a;
        if !any || v > best {
            best = v;
        }
        any = true;
        if v > a {
            a = v;
        }
        if a >= beta {
            proof {
                lemma_best_reply(*board, color, d, q);
                assert(eligible(*board, color, captures_phase(d), m));
            }
            return best;
        }
        assert(w <= v);
        assert(v > old_a ==> w == v);
        assert(any && best > alpha ==> ((captures && best == stand) || exists|j: int|
            0 <= j < i + 1 && reply_score(*board, color, d, q, #[trigger] ordered@[j]) == best)) by {
            if v > old_a {
                assert(ordered@[i as int] == m);
            }
        }
        i = i + 1;
    }
    proof {
        lemma_best_reply(*board, color, d, q);
        assert forall|m: Move| #[trigger] eligible(*board, color, captures_phase(d), m) implies reply_score(
            *board,
            color,
            d,
            q,
            m,
        ) <= best by {
            assert(ordered@.contains(m));
            let j = choose|j: int| 0 <= j < ordered@.len() && ordered@[j] == m;
        }
        if any && best > alpha && !(captures && best == stand) {
            let j = choose|j: int| 0 <= j < i && reply_score(*board, color, d, q, #[trigger] ordered@[j]) == best;
            assert(ordered@.contains(ordered@[j]));
        }
        if !captures && any {
            assert(ordered@.contains(ordered@[0]));
        }
        if !any {
            assert forall|m: Move| !#[trigger] eligible(*board, color, captures_phase(d), m) by {
                if eligible(*board, color, captures_phase(d), m) {
                    assert(ordered@.contains(m));
                }
            }
        }
    }
    if !any {
        let r: i32 = if board.is_in_check(color) {
            -MATE
        } else {
            0
        };
        return r;
    }
    best
}

/// The number of slots in the table that each root move searches with.
pub const TABLE_CAPACITY: usize = 16384;

/// The depth a root search uses: a depth of 0 searches as 1.
pub open spec fn root_depth(depth: u32) -> nat {
    if depth == 0 {
        1
    } else {
        depth as nat
    }
}

/// The value of root move `m` to `color` in a search of `depth` plies.
pub open spec fn root_score(b: Board, color: Color, depth: u32, m: Move) -> int {
    reply_score(b, color, root_depth(depth), QUIESCENCE_DEPTH as nat, m)
}

/// `m` is the move a search of `depth` plies chooses for `color`: the legal
/// move with the largest score, the lowest move number among equal scores.
pub open spec fn is_chosen_move(b: Board, color: Color, depth: u32, m: Move) -> bool {
    &&& b.legal_move(color, m)
    &&& forall|m2: Move| #[trigger]
        b.legal_move(color, m2) ==> preferred(root_score(b, color, depth, m), m, root_score(b, color, depth, m2), m2)
}

/// `m` is a legal move of `color` that no other legal move outscores.
pub open spec fn is_best_move(b: Board, color: Color, depth: u32, m: Move) -> bool {
    &&& b.legal_move(color, m)
    &&& forall|m2: Move| #[trigger] b.legal_move(color, m2) ==> root_score(b, color, depth, m2) <= root_score(b, color, depth, m)
}

/// Searches the position after the legal move `m` of `color` with a table of
/// its own and the full window, and returns its exact value to `color`.
pub fn evaluate_root_move(board: &Board, color: Color, depth: u32, m: Move) -> (r: i32)
    requires
        board.legal_move(color, m),
    ensures
        r == root_score(*board, color, depth, m),
{
    let mut child = *board;
    child.apply_move(m);
    let mut tt = TranspositionTable::new(TABLE_CAPACITY);
    let child_depth: u32 = if depth == 0 {
        0
    } else {
        depth - 1
    };
    let v = alpha_beta(&child, child_depth, QUIESCENCE_DEPTH, -INF, INF, opposite_color(color), &mut tt);
    -v
}

/// The number of a move with all coordinates on the board.
fn move_number(m: Move) -> (r: usize)
    requires
        m.0.0 < 8,
        m.0.1 < 8,
        m.1.0 < 8,
        m.1.1 < 8,
    ensures
        r == index_of(m),
{
    ((m.0.0 * 8 + m.0.1) * 8 + m.1.0) * 8 + m.1.1
}

/// `m` wins against `m2` in the choice of a root move: it scores more, or
/// as much with a lower move number.
pub open spec fn preferred(scores_m: int, m: Move, scores_m2: int, m2: Move) -> bool {
    scores_m2 < scores_m || (scores_m2 == scores_m && index_of(m) <= index_of(m2))
}

/// The index of the move with the largest score, the lowest move number
/// among equal scores.
fn pick_best(moves: &Vec<Move>, scores: &Vec<i32>) -> (r: usize)
    requires
        moves@.len() > 0,
        scores@.len() == moves@.len(),
        forall|j: int| 0 <= j < moves@.len() ==> #[trigger] moves@[j].0.0 < 8 && moves@[j].0.1 < 8 && moves@[j].1.0
            < 8 && moves@[j].1.1 < 8,
    ensures
        r < moves@.len(),
        forall|j: int|
            0 <= j < scores@.len() ==> preferred(scores@[r as int] as int, moves@[r as int], #[trigger] scores@[j] as int, moves@[j]),
{
    let mut best: usize = 0;
    let mut i: usize = 1;
    while i < scores.len()
        invariant
            scores@.len() == moves@.len(),
            1 <= i <= scores@.len(),
            best < i,
            forall|j: int| 0 <= j < moves@.len() ==> #[trigger] moves@[j].0.0 < 8 && moves@[j].0.1 < 8 && moves@[j].1.0
                < 8 && moves@[j].1.1 < 8,
            forall|j: int|
                0 <= j < i ==> preferred(scores@[best as int] as int, moves@[best as int], #[trigger] scores@[j] as int, moves@[j]),
        decreases scores@.len() - i,
    {
        if scores[i] > scores[best] || (scores[i] == scores[best] && move_number(moves[i]) < move_number(moves[best])) {
            best = i;
        }
        i = i + 1;
    }
    best
}

/// The legal moves of `color`, ordered for search.
fn root_moves(board: &Board, color: Color) -> (r: Vec<Move>)
    ensures
        forall|m: Move| #[trigger] r@.contains(m) <==> board.legal_move(color, m),
{
    let legal = board.generate_legal_moves(color);
    assert forall|m: Move| #[trigger] legal@.contains(m) implies m.1.0 < 8 && m.1.1 < 8 by {}
    order_moves(board, &legal)
}

/// Turns the scores of the root moves into the chosen move.
fn choose_root_move(board: &Board, color: Color, depth: u32, moves: &Vec<Move>, scores: &Vec<i32>) -> (r: Option<Move>)
    requires
        forall|m: Move| #[trigger] moves@.contains(m) <==> board.legal_move(color, m),
        scores@.len() == moves@.len(),
        forall|i: int| 0 <= i < moves@.len() ==> #[trigger] scores@[i] == root_score(*board, color, depth, moves@[i]),
    ensures
        r is None <==> !board.has_legal_move(color),
        r matches Some(m) ==> is_chosen_move(*board, color, depth, m) && is_best_move(*board, color, depth, m),
{
    if moves.len() == 0 {
        assert forall|m: Move| !#[trigger] board.legal_move(color, m) by {
            if board.legal_move(color, m) {
                assert(moves@.contains(m));
            }
        }
        return None;
    }
    assert forall|j: int| 0 <= j < moves@.len() implies #[trigger] moves@[j].0.0 < 8 && moves@[j].0.1 < 8
        && moves@[j].1.0 < 8 && moves@[j].1.1 < 8 by {
        assert(moves@.contains(moves@[j]));
    }
    let b = pick_best(moves, scores);
    let m = moves[b];
    assert(moves@.contains(m));
    assert forall|m2: Move| #[trigger] board.legal_move(color, m2) implies preferred(
        root_score(*board, color, depth, m),
        m,
        root_score(*board, color, depth, m2),
        m2,
    ) by {
        assert(moves@.contains(m2));
        let j = choose|j: int| 0 <= j < moves@.len() && moves@[j] == m2;
        assert(preferred(scores@[b as int] as int, moves@[b as int], scores@[j] as int, moves@[j]));
    }
    Some(m)
}

/// The best move for `color` found by a search of `depth` plies (0 counts
/// as 1), evaluating the root moves one after another; `None` exactly when
/// `color` has no legal move.
pub fn find_best_move(board: &Board, color: Color, depth: u32) -> (r: Option<Move>)
    ensures
        r is None <==> !board.has_legal_move(color),
        r matches Some(m) ==> is_chosen_move(*board, color, depth, m) && is_best_move(*board, color, depth, m),
{
    let moves = root_moves(board, color);
    let mut scores: Vec<i32> = Vec::new();
    let mut i: usize = 0;
    while i < moves.len()
        invariant
            i <= moves@.len(),
            scores@.len() == i,
            forall|m: Move| #[trigger] moves@.contains(m) <==> board.legal_move(color, m),
            forall|j: int| 0 <= j < i ==> #[trigger] scores@[j] == root_score(*board, color, depth, moves@[j]),
        decreases moves@.len() - i,
    {
        let m = moves[i];
        assert(moves@.contains(m));
        scores.push(evaluate_root_move(board, color, depth, m));
        i = i + 1;
    }
    choose_root_move(board, color, depth, &moves, &scores)
}

/// Relies on rayon's `par_iter().map(..).collect_into_vec(..)`: the result
/// holds, in order, what the verified `evaluate_root_move` returns for each
/// of `moves`, whichever threads computed it.
#[verifier::external_body]
fn evaluate_root_moves_in_parallel(board: &Board, color: Color, depth: u32, moves: &Vec<Move>) -> (r: Vec<i32>)
    requires
        forall|i: int| 0 <= i < moves@.len() ==> #[trigger] board.legal_move(color, moves@[i]),
    ensures
        r@.len() == moves@.len(),
        forall|i: int| 0 <= i < moves@.len() ==> #[trigger] r@[i] == root_score(*board, color, depth, moves@[i]),
{
    let mut out: Vec<i32> = Vec::new();
    moves.par_iter().map(|m| evaluate_root_move(board, color, depth, *m)).collect_into_vec(&mut out);
    out
}

/// The best move for `color` found by a search of `depth` plies (0 counts
/// as 1), with the root moves searched in parallel, each on its own copy of
/// the board and its own table; `None` exactly when `color` has no legal
/// move. The scores are gathered in move order and folded sequentially, so
/// the choice is the same as that of `find_best_move`: among equally
/// scored moves, the one with the lowest move number.
pub fn improved_best_move_for_color(board: &Board, color: Color, depth: u32) -> (r: Option<Move>)
    ensures
        r is None <==> !board.has_legal_move(color),
        r matches Some(m) ==> is_chosen_move(*board, color, depth, m) && is_best_move(*board, color, depth, m),
{
    let moves = root_moves(board, color);
    assert forall|i: int| 0 <= i < moves@.len() implies #[trigger] board.legal_move(color, moves@[i]) by {
        assert(moves@.contains(moves@[i]));
    }
    let scores = evaluate_root_moves_in_parallel(board, color, depth, &moves);
    choose_root_move(board, color, depth, &moves, &scores)
}
} // verus!
