use schaakmaat::chess::{Chess, Color, Kind, Outcome, Piece};
use schaakmaat::computer;
use schaakmaat::pos::Pos;

fn w(kind: Kind) -> Option<Piece> {
    Some(Piece::new(Color::White, kind))
}

fn b(kind: Kind) -> Option<Piece> {
    Some(Piece::new(Color::Black, kind))
}

fn mate_in_two_state() -> Chess {
    Chess {
        board: [
            [None, None, None, b(Kind::Rook), None, None, b(Kind::Rook), b(Kind::King)],
            [b(Kind::Pawn), None, None, None, None, b(Kind::Pawn), None, b(Kind::Pawn)],
            [None, None, None, b(Kind::Pawn), None, w(Kind::Pawn), b(Kind::Pawn), None],
            [None, None, None, w(Kind::Rook), None, None, None, None],
            [None, None, b(Kind::Pawn), None, w(Kind::Bishop), None, None, w(Kind::Queen)],
            [None, None, None, None, None, None, None, None],
            [None, b(Kind::Queen), None, None, None, None, w(Kind::Pawn), w(Kind::Pawn)],
            [None, None, None, None, w(Kind::Rook), None, w(Kind::King), None],
        ],
        turn: Color::White,
        kings: [Pos::new(6, 7), Pos::new(7, 0)],
    }
}

fn mate_in_one_state() -> Chess {
    Chess {
        board: [
            [b(Kind::Rook), None, b(Kind::Bishop), None, None, b(Kind::Rook), b(Kind::King), None],
            [b(Kind::Pawn), b(Kind::Pawn), b(Kind::Pawn), b(Kind::Pawn), None, None, b(Kind::Pawn), None],
            [None, None, None, None, None, None, None, None],
            [None, None, None, b(Kind::Queen), w(Kind::Pawn), w(Kind::Knight), None, w(Kind::Queen)],
            [None, None, None, None, None, None, None, None],
            [None, None, None, None, None, None, None, None],
            [w(Kind::Pawn), None, None, None, None, None, w(Kind::Pawn), w(Kind::Pawn)],
            [b(Kind::Bishop), None, w(Kind::Bishop), None, None, w(Kind::Rook), None, w(Kind::King)],
        ],
        turn: Color::White,
        kings: [Pos::new(7, 7), Pos::new(6, 0)],
    }
}

#[test]
fn mate_in_two() {
    let mut state = mate_in_two_state();

    for _ in 0..3 {
        let best_move = computer::minimax(&state, 3, i16::MIN, i16::MAX).m.unwrap();
        state.perform(best_move);
    }

    assert_eq!(state.outcome(), Some(Outcome::Winner(Color::White)));
}

#[test]
fn mate_in_one() {
    let mut state = mate_in_one_state();

    for _ in 0..1 {
        let best_move = computer::minimax(&state, 1, i16::MIN, i16::MAX).m.unwrap();
        state.perform(best_move);
    }

    assert_eq!(state.outcome(), Some(Outcome::Winner(Color::White)));
}
