use schaakmaat::chess::{Chess, Color, Kind, Move, Outcome, Piece};
use schaakmaat::computer::{best_move, exhaustive_minimax, minimax};
use schaakmaat::pos::{Pos, Shift};

fn empty_board() -> [[Option<Piece>; 8]; 8] {
    [[None; 8]; 8]
}

fn put(board: &mut [[Option<Piece>; 8]; 8], x: usize, y: usize, color: Color, kind: Kind) {
    board[y][x] = Some(Piece::new(color, kind));
}

/// Black king g8, Black pawns f7 g7 h7, White rook a1, White king g1, White to move.
fn back_rank_state() -> Chess {
    let mut board = empty_board();
    put(&mut board, 6, 0, Color::Black, Kind::King);
    put(&mut board, 5, 1, Color::Black, Kind::Pawn);
    put(&mut board, 6, 1, Color::Black, Kind::Pawn);
    put(&mut board, 7, 1, Color::Black, Kind::Pawn);
    put(&mut board, 0, 7, Color::White, Kind::Rook);
    put(&mut board, 6, 7, Color::White, Kind::King);
    Chess { board, turn: Color::White, kings: [Pos::new(6, 7), Pos::new(6, 0)] }
}

/// White king f7, White queen g6, Black king h8, Black to move.
fn stalemate_state() -> Chess {
    let mut board = empty_board();
    put(&mut board, 5, 1, Color::White, Kind::King);
    put(&mut board, 6, 2, Color::White, Kind::Queen);
    put(&mut board, 7, 0, Color::Black, Kind::King);
    Chess { board, turn: Color::Black, kings: [Pos::new(5, 1), Pos::new(7, 0)] }
}

#[test]
fn initial_state_has_twenty_moves() {
    let state = Chess::new();
    assert_eq!(state.moves().len(), 20);
}

#[test]
fn initial_layout() {
    let state = Chess::new();
    assert_eq!(state.turn, Color::White);
    assert_eq!(state.board[0][4], Some(Piece::new(Color::Black, Kind::King)));
    assert_eq!(state.board[7][3], Some(Piece::new(Color::White, Kind::Queen)));
    assert_eq!(state.board[6][0], Some(Piece::new(Color::White, Kind::Pawn)));
    assert_eq!(state.board[3][3], None);
    assert_eq!(state.kings, [Pos::new(4, 7), Pos::new(4, 0)]);
    assert_eq!(Chess::default(), state);
}

#[test]
fn legal_moves_never_leave_own_king_attacked() {
    let mut state = Chess::new();
    for _ in 0..4 {
        let mover = state.turn;
        for m in state.moves() {
            let mut copy = state;
            copy.perform(m);
            assert!(!copy.is_checked(mover));
        }
        let m = state.moves()[0];
        state.perform(m);
    }
}

#[test]
fn pinned_piece_cannot_move() {
    // White king e1, White rook e2, Black rook e8, Black king a8: the White rook is pinned
    // to its file.
    let mut board = empty_board();
    put(&mut board, 4, 7, Color::White, Kind::King);
    put(&mut board, 4, 6, Color::White, Kind::Rook);
    put(&mut board, 4, 0, Color::Black, Kind::Rook);
    put(&mut board, 0, 0, Color::Black, Kind::King);
    let state = Chess { board, turn: Color::White, kings: [Pos::new(4, 7), Pos::new(0, 0)] };
    for m in state.moves() {
        if m.from == Pos::new(4, 6) {
            assert_eq!(m.to.x, 4);
        }
    }
    assert!(state.moves().contains(&Move::new(Pos::new(4, 6), Pos::new(4, 0))));
    // rook: six up, three right, four left; king: four free neighbours
    assert_eq!(state.unsafe_moves(Color::White).len(), 13 + 4);
}

#[test]
fn outcome_none_while_moves_remain() {
    let state = Chess::new();
    assert!(!state.moves().is_empty());
    assert_eq!(state.outcome(), None);
}

#[test]
fn back_rank_mate() {
    let state = back_rank_state();
    let mate = Move::new(Pos::new(0, 7), Pos::new(0, 0));
    assert!(state.moves().contains(&mate));
    let mut after = state;
    after.perform(mate);
    assert!(after.moves().is_empty());
    assert!(after.is_checked(Color::Black));
    assert_eq!(after.outcome(), Some(Outcome::Winner(Color::White)));
    assert_eq!(after.evaluate(), i16::MAX);
    let chosen = best_move(&state, 1);
    assert_eq!(chosen.m, Some(mate));
    assert_eq!(chosen.score, i16::MAX);
}

#[test]
fn stalemate() {
    let state = stalemate_state();
    assert!(state.moves().is_empty());
    assert!(!state.is_checked(Color::Black));
    assert_eq!(state.outcome(), Some(Outcome::Stalemate));
    assert_eq!(state.evaluate(), 0);
    let chosen = best_move(&state, 2);
    assert_eq!(chosen.m, None);
    assert_eq!(chosen.score, 0);
}

#[test]
fn checkmate_of_white_scores_minimum() {
    // White king h1, Black queen g2 guarded by the Black king g3, White to move.
    let mut board = empty_board();
    put(&mut board, 7, 7, Color::White, Kind::King);
    put(&mut board, 6, 6, Color::Black, Kind::Queen);
    put(&mut board, 6, 5, Color::Black, Kind::King);
    let state = Chess { board, turn: Color::White, kings: [Pos::new(7, 7), Pos::new(6, 5)] };
    assert!(state.moves().is_empty());
    assert_eq!(state.outcome(), Some(Outcome::Winner(Color::Black)));
    assert_eq!(state.evaluate(), i16::MIN);
}

#[test]
fn depth_zero_gives_evaluation() {
    let state = back_rank_state();
    let r = best_move(&state, 0);
    assert_eq!(r.m, None);
    assert_eq!(r.score, state.evaluate());
    assert_eq!(r.score, 2);
    let initial = Chess::new();
    let r = best_move(&initial, 0);
    assert_eq!(r.m, None);
    assert_eq!(r.score, 0);
}

#[test]
fn pruning_matches_plain_minimax() {
    let states = [Chess::new(), back_rank_state(), stalemate_state()];
    for state in states.iter() {
        for depth in 0..3u8 {
            let pruned = best_move(state, depth);
            let plain = exhaustive_minimax(state, depth);
            assert_eq!(pruned, plain);
        }
    }
}

#[test]
fn narrow_window_still_picks_a_move() {
    let state = Chess::new();
    let r = minimax(&state, 1, 0, 1);
    assert!(r.m.is_some());
}

#[test]
fn evaluate_is_repeatable() {
    let state = back_rank_state();
    assert_eq!(state.evaluate(), state.evaluate());
    assert_eq!(state.material(), 2);
    let mut black_to_move = state;
    black_to_move.turn = Color::Black;
    assert_eq!(black_to_move.material(), state.material());
}

#[test]
fn piece_values() {
    assert_eq!(Kind::Pawn.base_value(), 1);
    assert_eq!(Kind::Knight.base_value(), 3);
    assert_eq!(Kind::Bishop.base_value(), 3);
    assert_eq!(Kind::Rook.base_value(), 5);
    assert_eq!(Kind::Queen.base_value(), 9);
    assert_eq!(Kind::King.base_value(), 0);
    assert_eq!(Piece::new(Color::Black, Kind::Queen).base_value(), -9);
    assert_eq!(Piece::new(Color::White, Kind::Rook).base_value(), 5);
}

#[test]
fn outcome_values() {
    assert_eq!(Outcome::Winner(Color::White).value(), i16::MAX);
    assert_eq!(Outcome::Winner(Color::Black).value(), i16::MIN);
    assert_eq!(Outcome::Stalemate.value(), 0);
}

#[test]
fn improves_per_color() {
    assert!(Color::White.improves(3, None));
    assert!(Color::White.improves(3, Some(2)));
    assert!(!Color::White.improves(2, Some(2)));
    assert!(Color::Black.improves(1, Some(2)));
    assert!(!Color::Black.improves(2, Some(2)));
    assert_eq!(Color::White.opponent(), Color::Black);
    assert_eq!(Color::default(), Color::White);
    assert_eq!(Color::White.king_index(), 0);
    assert_eq!(Color::Black.king_index(), 1);
}

#[test]
fn perform_moves_piece_and_passes_turn() {
    let mut state = Chess::new();
    let m = Move::new(Pos::new(4, 6), Pos::new(4, 4));
    assert!(state.moves().contains(&m));
    state.perform(m);
    assert_eq!(state.board[6][4], None);
    assert_eq!(state.board[4][4], Some(Piece::new(Color::White, Kind::Pawn)));
    assert_eq!(state.turn, Color::Black);
}

#[test]
fn king_cache_follows_king() {
    let mut board = empty_board();
    put(&mut board, 4, 7, Color::White, Kind::King);
    put(&mut board, 4, 0, Color::Black, Kind::King);
    let mut state = Chess { board, turn: Color::White, kings: [Pos::new(4, 7), Pos::new(4, 0)] };
    assert_eq!(state.moves().len(), 5);
    state.perform(Move::new(Pos::new(4, 7), Pos::new(3, 6)));
    assert_eq!(state.kings[0], Pos::new(3, 6));
    assert_eq!(state.kings[1], Pos::new(4, 0));
}

#[test]
fn capture_replaces_occupant() {
    let mut board = empty_board();
    put(&mut board, 4, 7, Color::White, Kind::King);
    put(&mut board, 0, 0, Color::Black, Kind::King);
    put(&mut board, 3, 4, Color::White, Kind::Pawn);
    put(&mut board, 4, 3, Color::Black, Kind::Knight);
    let mut state = Chess { board, turn: Color::White, kings: [Pos::new(4, 7), Pos::new(0, 0)] };
    let capture = Move::new(Pos::new(3, 4), Pos::new(4, 3));
    assert!(state.moves().contains(&capture));
    assert_eq!(state.material(), -2);
    state.perform(capture);
    assert_eq!(state.board[3][4], Some(Piece::new(Color::White, Kind::Pawn)));
    assert_eq!(state.material(), 1);
}

#[test]
fn pawn_moves_in_order() {
    // A White pawn on its starting row with an enemy on its left diagonal.
    let mut board = empty_board();
    put(&mut board, 7, 7, Color::White, Kind::King);
    put(&mut board, 0, 0, Color::Black, Kind::King);
    put(&mut board, 3, 6, Color::White, Kind::Pawn);
    put(&mut board, 2, 5, Color::Black, Kind::Rook);
    let state = Chess { board, turn: Color::White, kings: [Pos::new(7, 7), Pos::new(0, 0)] };
    let from = Pos::new(3, 6);
    let pawn: Vec<Move> = state.moves().into_iter().filter(|m| m.from == from).collect();
    assert_eq!(
        pawn,
        vec![
            Move::new(from, Pos::new(2, 5)),
            Move::new(from, Pos::new(3, 4)),
            Move::new(from, Pos::new(3, 5)),
        ]
    );
}

#[test]
fn blocked_pawn_has_no_step() {
    let mut board = empty_board();
    put(&mut board, 7, 7, Color::White, Kind::King);
    put(&mut board, 0, 0, Color::Black, Kind::King);
    put(&mut board, 3, 6, Color::White, Kind::Pawn);
    put(&mut board, 3, 5, Color::Black, Kind::Pawn);
    let state = Chess { board, turn: Color::White, kings: [Pos::new(7, 7), Pos::new(0, 0)] };
    assert!(state.moves().iter().all(|m| m.from != Pos::new(3, 6)));
}

#[test]
fn knight_in_corner_has_two_leaps() {
    let mut board = empty_board();
    put(&mut board, 7, 7, Color::White, Kind::King);
    put(&mut board, 7, 0, Color::Black, Kind::King);
    put(&mut board, 0, 0, Color::White, Kind::Knight);
    let state = Chess { board, turn: Color::White, kings: [Pos::new(7, 7), Pos::new(7, 0)] };
    let leaps: Vec<Move> =
        state.moves().into_iter().filter(|m| m.from == Pos::new(0, 0)).collect();
    assert_eq!(
        leaps,
        vec![Move::new(Pos::new(0, 0), Pos::new(2, 1)), Move::new(Pos::new(0, 0), Pos::new(1, 2))]
    );
}

#[test]
fn sliding_stops_at_first_piece() {
    // A lone White queen in the middle with one enemy and one friend in its way.
    let mut board = empty_board();
    put(&mut board, 7, 7, Color::White, Kind::King);
    put(&mut board, 0, 7, Color::Black, Kind::King);
    put(&mut board, 3, 3, Color::White, Kind::Queen);
    put(&mut board, 3, 1, Color::Black, Kind::Pawn);
    put(&mut board, 5, 3, Color::White, Kind::Pawn);
    let state = Chess { board, turn: Color::White, kings: [Pos::new(7, 7), Pos::new(0, 7)] };
    let queen: Vec<Move> =
        state.unsafe_moves(Color::White).into_iter().filter(|m| m.from == Pos::new(3, 3)).collect();
    // up 2 (capture included), up-right 3, right 1, down-right 3 (own king beyond), down 4,
    // down-left 3, left 3, up-left 3
    assert_eq!(queen.len(), 2 + 3 + 1 + 3 + 4 + 3 + 3 + 3);
    assert_eq!(queen[0], Move::new(Pos::new(3, 3), Pos::new(3, 2)));
    assert_eq!(queen[1], Move::new(Pos::new(3, 3), Pos::new(3, 1)));
}

#[test]
fn position_arithmetic() {
    let p = Pos::new(3, 4);
    let s = Shift::new(1, -2);
    assert_eq!(p.offset(s), Pos::new(4, 2));
    assert_eq!(p.offset_back(s), Pos::new(2, 6));
    assert_eq!(Pos::new(4, 2).diff(p), s);
    assert_eq!(s.negated(), Shift::new(-1, 2));
    assert_eq!(s.plus(Shift::new(2, 2)), Shift::new(3, 0));
    assert_eq!(s.minus(Shift::new(2, 2)), Shift::new(-1, -4));
    assert_eq!(s.times(3), Shift::new(3, -6));
    assert_eq!(p.x(), 3);
    assert_eq!(p.y(), 4);
    assert_eq!(Shift::compass(0), Shift::new(0, -1));
    assert_eq!(Shift::leap(2), Shift::new(2, 1));
    assert!(Chess::on_board(&Pos::new(7, 0)));
    assert!(!Chess::on_board(&Pos::new(8, 0)));
    assert!(!Chess::on_board(&Pos::new(0, -1)));
}
