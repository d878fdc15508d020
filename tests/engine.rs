use chess_core::board::{Board, Move};
use chess_core::eval::{evaluate_for, evaluate_position, order_moves, score_move};
use chess_core::mobility::mobility_term_of;
use chess_core::structure::{king_safety_for, opening_term_of, pawn_structure_for};
use chess_core::piece::{get_piece_value, opposite_color, Color, Piece, PieceType};
use chess_core::search::{
    alpha_beta, evaluate_root_move, find_best_move, improved_best_move_for_color, INF, MATE,
};
use chess_core::tt::TranspositionTable;
use chess_core::zobrist::ZobristKeys;

fn empty_board() -> Board {
    Board {
        squares: [[None; 8]; 8],
        half_move_clock: 0,
        white_castle_possible: (false, false),
        black_castle_possible: (false, false),
        en_passant_target: None,
    }
}

fn put(b: &mut Board, r: usize, c: usize, color: Color, kind: PieceType) {
    b.squares[r][c] = Some(Piece { color, kind });
}

fn play(b: &mut Board, m: Move) {
    assert!(b.is_valid_move(m.0, m.1), "move {:?} should be valid", m);
    b.apply_move(m);
}

#[test]
fn starting_position_has_twenty_moves_each() {
    let b = Board::new();
    assert_eq!(b.generate_legal_moves(Color::White).len(), 20);
    assert_eq!(b.generate_legal_moves(Color::Black).len(), 20);
    assert!(!b.is_in_check(Color::White));
    assert!(!b.is_checkmate(Color::White));
    assert!(!b.is_draw(Color::White));
}

#[test]
fn starting_position_layout() {
    let b = Board::new();
    assert_eq!(b.half_move_clock, 0);
    assert_eq!(b.white_castle_possible, (true, true));
    assert_eq!(b.black_castle_possible, (true, true));
    assert_eq!(b.en_passant_target, None);
    assert_eq!(b.squares[0][4].unwrap().kind, PieceType::King);
    assert_eq!(b.squares[7][3].unwrap().kind, PieceType::Queen);
    assert_eq!(b.squares[7][3].unwrap().color, Color::Black);
    assert_eq!(b.squares[1][5].unwrap().kind, PieceType::Pawn);
    assert!(b.squares[4][4].is_none());
    assert_eq!(b.find_king(Color::White), Some((0, 4)));
    assert_eq!(b.find_king(Color::Black), Some((7, 4)));
}

#[test]
fn legal_moves_never_leave_own_king_in_check() {
    let mut b = Board::new();
    for m in [((1, 4), (3, 4)), ((6, 3), (4, 3)), ((0, 5), (4, 1))] {
        play(&mut b, m);
    }
    // Black is in check from the bishop on b5.
    assert!(b.is_in_check(Color::Black));
    let moves = b.generate_legal_moves(Color::Black);
    assert!(!moves.is_empty());
    for m in moves {
        let mut c = b;
        c.apply_move(m);
        assert!(!c.is_in_check(Color::Black), "{:?} leaves the king in check", m);
    }
}

#[test]
fn scholars_mate_is_checkmate() {
    let mut b = Board::new();
    let line = [
        ((1, 4), (3, 4)),
        ((6, 4), (4, 4)),
        ((0, 5), (3, 2)),
        ((7, 1), (5, 2)),
        ((0, 3), (4, 7)),
        ((7, 6), (5, 5)),
        ((4, 7), (6, 5)),
    ];
    for m in line {
        play(&mut b, m);
    }
    assert!(b.is_in_check(Color::Black));
    assert!(b.is_checkmate(Color::Black));
    assert!(!b.is_stalemate(Color::Black));
    assert!(b.generate_legal_moves(Color::Black).is_empty());
    assert_eq!(find_best_move(&b, Color::Black, 1), None);
    assert_eq!(improved_best_move_for_color(&b, Color::Black, 2), None);
}

#[test]
fn bare_kings_draw_without_stalemate() {
    let mut b = empty_board();
    put(&mut b, 0, 4, Color::White, PieceType::King);
    put(&mut b, 7, 4, Color::Black, PieceType::King);
    assert!(!b.is_stalemate(Color::White));
    assert!(!b.generate_legal_moves(Color::White).is_empty());
    assert!(!b.has_sufficient_material());
    assert!(b.is_draw(Color::White));
    assert!(b.is_draw(Color::Black));
}

#[test]
fn material_rules() {
    let mut b = empty_board();
    put(&mut b, 0, 4, Color::White, PieceType::King);
    put(&mut b, 7, 4, Color::Black, PieceType::King);
    put(&mut b, 0, 1, Color::White, PieceType::Knight);
    assert!(!b.has_sufficient_material());
    put(&mut b, 7, 2, Color::Black, PieceType::Bishop);
    assert!(!b.has_sufficient_material());
    put(&mut b, 0, 2, Color::White, PieceType::Bishop);
    assert!(b.has_sufficient_material());
    let mut p = empty_board();
    put(&mut p, 0, 4, Color::White, PieceType::King);
    put(&mut p, 7, 4, Color::Black, PieceType::King);
    put(&mut p, 3, 3, Color::Black, PieceType::Pawn);
    assert!(p.has_sufficient_material());
    assert!(!p.is_draw(Color::White));
}

#[test]
fn fifty_quiet_plies_are_a_draw() {
    let mut b = Board::new();
    let cycle = [
        ((0, 1), (2, 2)),
        ((7, 1), (5, 2)),
        ((2, 2), (0, 1)),
        ((5, 2), (7, 1)),
    ];
    for i in 0..49 {
        play(&mut b, cycle[i % 4]);
    }
    assert_eq!(b.half_move_clock, 49);
    assert!(!b.is_draw(Color::White));
    play(&mut b, cycle[49 % 4]);
    assert_eq!(b.half_move_clock, 50);
    assert!(b.has_sufficient_material());
    assert!(b.is_draw(Color::Black));
    play(&mut b, ((1, 0), (2, 0)));
    assert_eq!(b.half_move_clock, 0);
}

#[test]
fn en_passant_lasts_one_ply() {
    let mut b = Board::new();
    play(&mut b, ((1, 4), (3, 4)));
    assert_eq!(b.en_passant_target, Some((2, 4)));
    play(&mut b, ((6, 0), (5, 0)));
    assert_eq!(b.en_passant_target, None);
    play(&mut b, ((3, 4), (4, 4)));
    play(&mut b, ((6, 3), (4, 3)));
    assert_eq!(b.en_passant_target, Some((5, 3)));
    // White may take en passant right now.
    assert!(b.is_valid_move((4, 4), (5, 3)));
    let mut taken = b;
    taken.apply_move(((4, 4), (5, 3)));
    assert!(taken.squares[4][3].is_none());
    assert_eq!(taken.squares[5][3].unwrap().kind, PieceType::Pawn);
    assert_eq!(taken.en_passant_target, None);
    assert_eq!(taken.half_move_clock, 0);
    // Or not; then the chance is gone.
    play(&mut b, ((0, 6), (2, 5)));
    play(&mut b, ((7, 6), (5, 5)));
    assert_eq!(b.en_passant_target, None);
    assert!(!b.is_valid_move((4, 4), (5, 3)));
}

#[test]
fn kingside_castling() {
    let mut b = Board::new();
    for m in [
        ((1, 4), (3, 4)),
        ((6, 4), (4, 4)),
        ((0, 6), (2, 5)),
        ((7, 1), (5, 2)),
        ((0, 5), (3, 2)),
        ((7, 6), (5, 5)),
    ] {
        play(&mut b, m);
    }
    assert!(b.can_castle_unsafe((0, 4), (0, 6)));
    assert!(b.can_castle((0, 4), (0, 6)));
    assert!(!b.can_castle((0, 4), (0, 2)));
    play(&mut b, ((0, 4), (0, 6)));
    assert_eq!(b.squares[0][6].unwrap().kind, PieceType::King);
    assert_eq!(b.squares[0][5].unwrap().kind, PieceType::Rook);
    assert!(b.squares[0][7].is_none());
    assert!(b.squares[0][4].is_none());
    assert_eq!(b.white_castle_possible, (false, false));
    assert_eq!(b.black_castle_possible, (true, true));
    assert_eq!(b.half_move_clock, 5);
}

#[test]
fn castle_method_moves_king_and_rook() {
    let mut b = empty_board();
    b.black_castle_possible = (true, true);
    put(&mut b, 7, 4, Color::Black, PieceType::King);
    put(&mut b, 7, 0, Color::Black, PieceType::Rook);
    put(&mut b, 0, 4, Color::White, PieceType::King);
    assert!(b.castle((7, 4), (7, 2)));
    assert_eq!(b.squares[7][2].unwrap().kind, PieceType::King);
    assert_eq!(b.squares[7][3].unwrap().kind, PieceType::Rook);
    assert_eq!(b.black_castle_possible, (false, false));
    assert!(!b.castle((7, 2), (7, 2)));
}

#[test]
fn no_castling_through_check() {
    let mut b = empty_board();
    b.white_castle_possible = (true, true);
    put(&mut b, 0, 4, Color::White, PieceType::King);
    put(&mut b, 0, 7, Color::White, PieceType::Rook);
    put(&mut b, 0, 0, Color::White, PieceType::Rook);
    put(&mut b, 7, 0, Color::Black, PieceType::King);
    put(&mut b, 5, 5, Color::Black, PieceType::Rook);
    assert!(b.can_castle_unsafe((0, 4), (0, 6)));
    assert!(!b.can_castle((0, 4), (0, 6)));
    assert!(!b.is_valid_move((0, 4), (0, 6)));
    assert!(b.can_castle((0, 4), (0, 2)));
    assert!(b.is_valid_move((0, 4), (0, 2)));
    assert!(b.is_square_under_attack(0, 5, Color::White));
    assert!(!b.is_square_under_attack(0, 3, Color::White));
}

#[test]
fn castling_rights_are_lost_for_good() {
    let mut b = Board::new();
    for m in [((1, 7), (3, 7)), ((6, 0), (4, 0)), ((0, 7), (2, 7)), ((7, 0), (5, 0))] {
        play(&mut b, m);
    }
    assert_eq!(b.white_castle_possible, (true, false));
    assert_eq!(b.black_castle_possible, (false, true));
    for m in [((2, 7), (0, 7)), ((5, 0), (7, 0))] {
        play(&mut b, m);
    }
    assert_eq!(b.white_castle_possible, (true, false));
    assert_eq!(b.black_castle_possible, (false, true));
    assert!(!b.can_castle_unsafe((0, 4), (0, 6)));
}

#[test]
fn pawn_promotes_to_queen() {
    let mut b = empty_board();
    put(&mut b, 0, 4, Color::White, PieceType::King);
    put(&mut b, 7, 0, Color::Black, PieceType::King);
    put(&mut b, 6, 6, Color::White, PieceType::Pawn);
    play(&mut b, ((6, 6), (7, 6)));
    assert_eq!(b.squares[7][6], Some(Piece { color: Color::White, kind: PieceType::Queen }));
    assert!(b.is_in_check(Color::Black));
}

#[test]
fn pseudo_moves_of_pieces() {
    let b = Board::new();
    let knight = b.generate_moves_for_piece(0, 1);
    assert_eq!(knight.len(), 2);
    assert!(knight.contains(&((0, 1), (2, 0))));
    assert!(knight.contains(&((0, 1), (2, 2))));
    let pawn = b.generate_moves_for_piece(1, 3);
    assert_eq!(pawn.len(), 2);
    assert!(b.generate_moves_for_piece(0, 0).is_empty());
    assert!(b.generate_moves_for_piece(4, 4).is_empty());
    let mut q = empty_board();
    put(&mut q, 3, 3, Color::White, PieceType::Queen);
    assert_eq!(q.generate_moves_for_piece(3, 3).len(), 27);
    put(&mut q, 3, 5, Color::Black, PieceType::Pawn);
    put(&mut q, 5, 5, Color::White, PieceType::Pawn);
    let moves = q.generate_moves_for_piece(3, 3);
    assert!(moves.contains(&((3, 3), (3, 5))));
    assert!(!moves.contains(&((3, 3), (3, 6))));
    assert!(!moves.contains(&((3, 3), (5, 5))));
    assert!(moves.contains(&((3, 3), (4, 4))));
    assert_eq!(moves.len(), 27 - 2 - 3);
}

#[test]
fn invalid_moves_are_rejected() {
    let b = Board::new();
    assert!(!b.is_valid_move((1, 4), (1, 4)));
    assert!(!b.is_valid_move((8, 0), (2, 0)));
    assert!(!b.is_valid_move((3, 3), (4, 3)));
    assert!(!b.is_valid_move((0, 0), (1, 0)));
    assert!(!b.is_valid_move((1, 4), (4, 4)));
    assert!(b.is_valid_move((1, 4), (3, 4)));
    assert_eq!(b.legal_moves_from(0, 6).len(), 2);
}

#[test]
fn stalemate_is_a_draw() {
    let mut b = empty_board();
    put(&mut b, 7, 0, Color::Black, PieceType::King);
    put(&mut b, 6, 2, Color::White, PieceType::Queen);
    put(&mut b, 0, 7, Color::White, PieceType::King);
    assert!(!b.is_in_check(Color::Black));
    assert!(b.is_stalemate(Color::Black));
    assert!(!b.is_checkmate(Color::Black));
    assert!(b.is_draw(Color::Black));
    assert!(!b.is_stalemate(Color::White));
    assert_eq!(find_best_move(&b, Color::Black, 2), None);
}

#[test]
fn evaluation_values() {
    let b = Board::new();
    assert_eq!(evaluate_position(&b), 0);
    let mut k = empty_board();
    put(&mut k, 0, 4, Color::White, PieceType::King);
    put(&mut k, 7, 4, Color::Black, PieceType::King);
    assert_eq!(evaluate_position(&k), 0);
    put(&mut k, 3, 3, Color::White, PieceType::Knight);
    // 320 for the knight, 20 on the central ring, 10 in the central region;
    // eight squares at 4 each, scaled by 320 / 7800 of the material: 1.
    assert_eq!(evaluate_position(&k), 351);
    assert_eq!(evaluate_for(&k, Color::Black), -351);
    put(&mut k, 6, 0, Color::Black, PieceType::Pawn);
    // A black pawn on its start row, on the rim: 100. It is passed (8 for
    // one row advanced) and isolated (-10).
    assert_eq!(evaluate_position(&k), 350 - 100 + 2 + 1);
    put(&mut k, 0, 2, Color::White, PieceType::Bishop);
    put(&mut k, 0, 5, Color::White, PieceType::Bishop);
    // Each bishop on the back rank: 330 - 5; the bishop pair: 30; mobility
    // 32 + 35 + 35 scaled by 1080 / 7800: 14.
    assert_eq!(evaluate_position(&k), 350 + 650 + 30 - 100 + 2 + 14);
    assert_eq!(get_piece_value(&Piece { color: Color::White, kind: PieceType::Rook }), 500);
    assert_eq!(PieceType::Knight.get_name(), "Knight");
    assert_eq!(opposite_color(Color::White), Color::Black);
}

#[test]
fn pawn_structure_and_king_safety() {
    let mut b = empty_board();
    put(&mut b, 0, 7, Color::White, PieceType::King);
    put(&mut b, 7, 0, Color::Black, PieceType::King);
    put(&mut b, 1, 6, Color::White, PieceType::Pawn);
    put(&mut b, 1, 7, Color::White, PieceType::Pawn);
    // Two passed pawns on their start row (8 each), not isolated; both
    // shield the king (12 each).
    assert_eq!(pawn_structure_for(&b, Color::White), 16);
    assert_eq!(king_safety_for(&b, Color::White), 24);
    put(&mut b, 2, 7, Color::White, PieceType::Pawn);
    // A doubled pawn: -15; the new one is passed too, two rows up: 16.
    assert_eq!(pawn_structure_for(&b, Color::White), 16 + 16 - 15);
    put(&mut b, 2, 5, Color::Black, PieceType::Queen);
    put(&mut b, 1, 5, Color::Black, PieceType::Rook);
    // A queen (8) and a rook (5) near the king, and more than one: 20.
    assert_eq!(king_safety_for(&b, Color::White), 24 - 8 - 5 - 20);
    assert_eq!(king_safety_for(&empty_board(), Color::White), 0);
}

#[test]
fn opening_and_mobility_terms() {
    let b = Board::new();
    assert_eq!(opening_term_of(&b), 0);
    assert_eq!(mobility_term_of(&b), 0);
    let mut d = b;
    d.apply_move(((1, 4), (3, 4)));
    // A central pawn advanced: 10 while the opening lasts.
    assert_eq!(opening_term_of(&d), 10);
    // The bishop on f1, the queen and the knight on g1 gain squares:
    // 5 * 5 + 4 * 1 + 1 * 4 = 33, scaled by the full material: 33.
    assert_eq!(mobility_term_of(&d), 33);
}

#[test]
fn move_ordering_puts_captures_first() {
    let mut b = empty_board();
    put(&mut b, 0, 4, Color::White, PieceType::King);
    put(&mut b, 7, 4, Color::Black, PieceType::King);
    put(&mut b, 3, 3, Color::White, PieceType::Rook);
    put(&mut b, 3, 6, Color::Black, PieceType::Queen);
    put(&mut b, 6, 3, Color::Black, PieceType::Knight);
    assert_eq!(score_move(&b, &((3, 3), (3, 6))), 900);
    assert_eq!(score_move(&b, &((3, 3), (6, 3))), 320);
    assert_eq!(score_move(&b, &((3, 3), (4, 3))), 10);
    assert_eq!(score_move(&b, &((3, 3), (0, 3))), 0);
    let moves = b.generate_legal_moves(Color::White);
    let ordered = order_moves(&b, &moves);
    assert_eq!(ordered.len(), moves.len());
    assert_eq!(ordered[0], ((3, 3), (3, 6)));
    assert_eq!(ordered[1], ((3, 3), (6, 3)));
    for w in ordered.windows(2) {
        assert!(score_move(&b, &w[0]) >= score_move(&b, &w[1]));
    }
}

#[test]
fn search_finds_mate_in_one() {
    let mut b = empty_board();
    put(&mut b, 0, 6, Color::White, PieceType::King);
    put(&mut b, 0, 0, Color::White, PieceType::Rook);
    put(&mut b, 7, 7, Color::Black, PieceType::King);
    put(&mut b, 6, 6, Color::Black, PieceType::Pawn);
    put(&mut b, 6, 7, Color::Black, PieceType::Pawn);
    let best = find_best_move(&b, Color::White, 2);
    assert_eq!(best, Some(((0, 0), (7, 0))));
    assert_eq!(evaluate_root_move(&b, Color::White, 2, ((0, 0), (7, 0))), MATE);
    assert_eq!(improved_best_move_for_color(&b, Color::White, 2), best);
}

#[test]
fn search_takes_a_free_queen() {
    let mut b = empty_board();
    put(&mut b, 0, 4, Color::White, PieceType::King);
    put(&mut b, 7, 0, Color::Black, PieceType::King);
    put(&mut b, 3, 3, Color::White, PieceType::Knight);
    put(&mut b, 5, 4, Color::Black, PieceType::Queen);
    assert_eq!(find_best_move(&b, Color::White, 1), Some(((3, 3), (5, 4))));
}

#[test]
fn search_is_reproducible() {
    let mut b = Board::new();
    play(&mut b, ((1, 4), (3, 4)));
    let first = find_best_move(&b, Color::Black, 2);
    let second = find_best_move(&b, Color::Black, 2);
    assert!(first.is_some());
    assert_eq!(first, second);
    let parallel = improved_best_move_for_color(&b, Color::Black, 2);
    assert_eq!(parallel, first);
    assert_eq!(improved_best_move_for_color(&b, Color::Black, 2), first);
}

#[test]
fn full_window_search_values() {
    let mut tt = TranspositionTable::new(64);
    let b = Board::new();
    let v = alpha_beta(&b, 0, 0, -INF, INF, Color::White, &mut tt);
    assert_eq!(v, 0);
    let mut k = empty_board();
    put(&mut k, 0, 4, Color::White, PieceType::King);
    assert_eq!(alpha_beta(&k, 1, 0, -INF, INF, Color::Black, &mut tt), -MATE);
    let probe = tt.probe(&b, Color::White, 0, 0);
    assert!(probe.is_none() || probe.unwrap().score == 0);
}

#[test]
fn position_keys() {
    let keys = ZobristKeys::new();
    let b = Board::new();
    let h = keys.compute_hash(&b, Color::White);
    assert_eq!(h, keys.compute_hash(&Board::new(), Color::White));
    assert_ne!(h, keys.compute_hash(&b, Color::Black));
    let mut c = b;
    c.white_castle_possible = (false, true);
    assert_ne!(h, keys.compute_hash(&c, Color::White));
    let mut d = b;
    d.apply_move(((1, 4), (3, 4)));
    assert_ne!(h, keys.compute_hash(&d, Color::White));
    assert_ne!(h, 0);
}

fn has_duplicates(moves: &[Move]) -> bool {
    let mut seen: Vec<Move> = Vec::new();
    for m in moves {
        if seen.contains(m) {
            return true;
        }
        seen.push(*m);
    }
    false
}

#[test]
fn generated_moves_have_no_duplicates() {
    let mut b = Board::new();
    for m in [((1, 4), (3, 4)), ((6, 3), (4, 3)), ((3, 4), (4, 3))] {
        play(&mut b, m);
    }
    for r in 0..8 {
        for c in 0..8 {
            assert!(!has_duplicates(&b.generate_moves_for_piece(r, c)));
        }
    }
    assert!(!has_duplicates(&b.generate_all_moves(Color::White)));
    assert!(!has_duplicates(&b.generate_legal_moves(Color::Black)));
    assert!(!has_duplicates(&b.generate_legal_captures(Color::Black)));
    let mut q = empty_board();
    put(&mut q, 3, 3, Color::White, PieceType::Queen);
    let moves = q.generate_moves_for_piece(3, 3);
    assert_eq!(moves.len(), 27);
    assert!(!has_duplicates(&moves));
}

#[test]
fn en_passant_square_must_be_empty() {
    let mut b = empty_board();
    put(&mut b, 0, 4, Color::White, PieceType::King);
    put(&mut b, 7, 4, Color::Black, PieceType::King);
    put(&mut b, 4, 4, Color::White, PieceType::Pawn);
    put(&mut b, 4, 3, Color::Black, PieceType::Pawn);
    put(&mut b, 5, 3, Color::White, PieceType::Knight);
    b.en_passant_target = Some((5, 3));
    let moves = b.generate_moves_for_piece(4, 4);
    assert!(!moves.contains(&((4, 4), (5, 3))));
    assert!(moves.contains(&((4, 4), (5, 4))));
    b.squares[5][3] = None;
    assert!(b.generate_moves_for_piece(4, 4).contains(&((4, 4), (5, 3))));
}

#[test]
fn table_keeps_what_a_search_stored() {
    let mut tt = TranspositionTable::new(1024);
    let b = Board::new();
    assert!(tt.probe(&b, Color::White, 1, 0).is_none());
    let v = alpha_beta(&b, 1, 0, -INF, INF, Color::White, &mut tt);
    let e = tt.probe(&b, Color::White, 1, 0).unwrap();
    assert_eq!(e.score, v);
    assert_eq!(e.depth, 1);
    assert_eq!(e.color, Color::White);
    assert!(tt.probe(&b, Color::Black, 1, 0).is_none());
    assert!(tt.probe(&b, Color::White, 2, 0).is_none());
    assert_eq!(alpha_beta(&b, 1, 0, -INF, INF, Color::White, &mut tt), v);
}

#[test]
fn ordering_keeps_every_move_once() {
    let b = Board::new();
    let moves = b.generate_legal_moves(Color::White);
    let ordered = order_moves(&b, &moves);
    let mut x = moves.clone();
    let mut y = ordered.clone();
    x.sort();
    y.sort();
    assert_eq!(x, y);
}
