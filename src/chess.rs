use vstd::prelude::*;

use crate::pos::{Pos, Shift};
use crate::rules::{back_rank, initial_cell, lemma_keep_safe_empty, lemma_move_keeps_kings_cached, inside, on_board, only, slide_count, slide_dir, square, Game};

verus! {

/// The two sides.
#[derive(Copy, Clone, Debug, PartialEq, Eq, Structural, Hash)]
pub enum Color {
    Black,
    White,
}

impl Default for Color {
    fn default() -> (r: Color)
        ensures
            r == Color::White,
    {
        Color::White
    }
}

impl Color {
    /// The side that is not `self`.
    pub open spec fn opp(self) -> Color {
        match self {
            Color::Black => Color::White,
            Color::White => Color::Black,
        }
    }

    /// The slot of this side's king in the king cache: White 0, Black 1.
    pub open spec fn slot(self) -> int {
        match self {
            Color::Black => 1,
            Color::White => 0,
        }
    }

    pub fn opponent(&self) -> (r: Color)
        ensures
            r == self.opp(),
    {
        match self {
            Color::Black => Color::White,
            Color::White => Color::Black,
        }
    }

    /// Whether `score` beats the best score seen so far from this side's point of view: any
    /// score beats none, White wants more and Black wants less.
    pub fn improves(&self, score: i16, best_score: Option<i16>) -> (r: bool)
        ensures
            r == crate::rules::improves(*self, score as int, best_score),
    {
        match best_score {
            None => true,
            Some(best) => match self {
                Color::Black => score < best,
                Color::White => score > best,
            },
        }
    }

    pub fn king_index(&self) -> (r: usize)
        ensures
            r as int == self.slot(),
    {
        match self {
            Color::Black => 1,
            Color::White => 0,
        }
    }
}

/// The six kinds of piece.
#[derive(Copy, Clone, Debug, PartialEq, Eq, Structural, Hash)]
pub enum Kind {
    Pawn,
    Rook,
    Knight,
    Bishop,
    Queen,
    King,
}

impl Kind {
    /// Material worth of the kind.
    pub open spec fn worth(self) -> int {
        match self {
            Kind::Pawn => 1,
            Kind::Rook => 5,
            Kind::Knight => 3,
            Kind::Bishop => 3,
            Kind::Queen => 9,
            Kind::King => 0,
        }
    }

    pub fn base_value(&self) -> (r: i16)
        ensures
            r as int == self.worth(),
    {
        match self {
            Kind::Pawn => 1,
            Kind::Rook => 5,
            Kind::Knight => 3,
            Kind::Bishop => 3,
            Kind::Queen => 9,
            Kind::King => 0,
        }
    }
}

/// A piece: its side and its kind.
#[derive(Copy, Clone, Debug, PartialEq, Eq, Structural, Hash)]
pub struct Piece {
    pub color: Color,
    pub kind: Kind,
}

impl Piece {
    /// Material worth, positive for White and negative for Black.
    pub open spec fn worth(self) -> int {
        match self.color {
            Color::Black => -self.kind.worth(),
            Color::White => self.kind.worth(),
        }
    }

    pub fn new(color: Color, kind: Kind) -> (r: Piece)
        ensures
            r.color == color,
            r.kind == kind,
    {
        Piece { color, kind }
    }

    pub fn base_value(&self) -> (r: i16)
        ensures
            r as int == self.worth(),
    {
        match self.color {
            Color::Black => -self.kind.base_value(),
            Color::White => self.kind.base_value(),
        }
    }
}

/// A move of the piece on `from` to `to`.
#[derive(Copy, Clone, Debug, PartialEq, Eq, Structural, Hash)]
pub struct Move {
    pub from: Pos,
    pub to: Pos,
}

impl Move {
    pub fn new(from: Pos, to: Pos) -> (r: Move)
        ensures
            r.from == from,
            r.to == to,
    {
        Move { from, to }
    }
}

/// How a finished game ended.
#[derive(Copy, Clone, Debug, PartialEq, Eq, Structural, Hash)]
pub enum Outcome {
    Winner(Color),
    Stalemate,
}

impl Outcome {
    /// The score of a finished game: the extreme of `i16` towards the winner, zero for a
    /// stalemate.
    pub open spec fn score(self) -> int {
        match self {
            Outcome::Winner(Color::Black) => i16::MIN as int,
            Outcome::Winner(Color::White) => i16::MAX as int,
            Outcome::Stalemate => 0,
        }
    }

    pub fn value(&self) -> (r: i16)
        ensures
            r as int == self.score(),
    {
        match self {
            Outcome::Winner(color) => match color {
                Color::Black => i16::MIN,
                Color::White => i16::MAX,
            },
            Outcome::Stalemate => 0,
        }
    }
}

/// A game state: the board as rows of cells (`board[y][x]`), the side to move, and where each
/// side's king stands (White's in slot 0, Black's in slot 1).
#[derive(Copy, Clone, Debug, PartialEq, Eq, Hash)]
pub struct Chess {
    pub board: [[Option<Piece>; 8]; 8],
    pub turn: Color,
    pub kings: [Pos; 2],
}

impl Default for Chess {
    fn default() -> (r: Chess)
        ensures
            forall|x: int, y: int| on_board(x, y) ==> #[trigger] r@.at(x, y) == initial_cell(x, y),
            r.turn == Color::White,
    {
        Chess::new()
    }
}

impl View for Chess {
    type V = Game;

    open spec fn view(&self) -> Game {
        Game {
            grid: self.board@.map_values(|row: [Option<Piece>; 8]| row@),
            turn: self.turn,
            kings: self.kings@,
        }
    }
}

impl Chess {
    /// The standard opening layout with White to move.
    pub fn new() -> (r: Chess)
        ensures
            forall|x: int, y: int| on_board(x, y) ==> #[trigger] r@.at(x, y) == initial_cell(x, y),
            r.turn == Color::White,
            r@.king(Color::White) == square(4, 7),
            r@.king(Color::Black) == square(4, 0),
            r@.kings_cached(),
    {
        let board = [
            Self::back_rank(Color::Black),
            [Some(Piece::new(Color::Black, Kind::Pawn)); 8],
            [None; 8],
            [None; 8],
            [None; 8],
            [None; 8],
            [Some(Piece::new(Color::White, Kind::Pawn)); 8],
            Self::back_rank(Color::White),
        ];
        let turn = Color::White;
        let kings = [Pos::new(4, 7), Pos::new(4, 0)];
        let r = Chess { board, turn, kings };
        assert(r@.at(4, 7) == Some(Piece { color: Color::White, kind: Kind::King }));
        assert(r@.at(4, 0) == Some(Piece { color: Color::Black, kind: Kind::King }));
        r
    }

    /// A back rank of `color` in the opening layout.
    fn back_rank(color: Color) -> (r: [Option<Piece>; 8])
        ensures
            forall|x: int| 0 <= x < 8 ==> #[trigger] r@[x] == Some(Piece { color, kind: back_rank(x) }),
    {
        let row = [
            Some(Piece::new(color, Kind::Rook)),
            Some(Piece::new(color, Kind::Knight)),
            Some(Piece::new(color, Kind::Bishop)),
            Some(Piece::new(color, Kind::Queen)),
            Some(Piece::new(color, Kind::King)),
            Some(Piece::new(color, Kind::Bishop)),
            Some(Piece::new(color, Kind::Knight)),
            Some(Piece::new(color, Kind::Rook)),
        ];
        row
    }

    /// Whether `pos` lies on the board.
    pub fn on_board(pos: &Pos) -> (r: bool)
        ensures
            r == on_board(pos.x as int, pos.y as int),
    {
        (0 <= pos.x && pos.x < 8) && (0 <= pos.y && pos.y < 8)
    }

    /// The content of square `pos`; nothing off the board.
    pub fn cell(&self, pos: Pos) -> (r: Option<Piece>)
        ensures
            r == self@.piece_at(pos),
    {
        if Self::on_board(&pos) {
            self.board[pos.y as usize][pos.x as usize]
        } else {
            None
        }
    }

    /// Moves the piece on `m.from` to `m.to`, capturing what stood there, keeps the king cache
    /// in step when a king moves, and passes the turn.
    pub fn perform(&mut self, m: Move)
        requires
            inside(m.from),
            inside(m.to),
            old(self)@.piece_at(m.from) is Some,
        ensures
            final(self)@ == old(self)@.after(m),
            old(self)@.kings_cached() && old(self)@.sound(old(self).turn, m) && !(old(
                self,
            )@.piece_at(m.to) matches Some(p) && p.kind == Kind::King) ==> final(self)@.kings_cached(),
    {
        let ghost g = self@;
        proof {
            if g.kings_cached() && g.sound(g.turn, m) && !(g.piece_at(m.to) matches Some(p) && p.kind
                == Kind::King) {
                lemma_move_keeps_kings_cached(g, m);
            }
        }
        let fx = m.from.x as usize;
        let fy = m.from.y as usize;
        let tx = m.to.x as usize;
        let ty = m.to.y as usize;
        let piece = self.board[fy][fx];
        if let Some(p) = piece {
            if p.kind == Kind::King {
                let k = self.turn.king_index();
                self.kings[k] = m.to;
            }
        }
        self.board[fy][fx] = None;
        self.board[ty][tx] = piece;
        self.turn = self.turn.opponent();
        assert(self@.grid =~~= g.after(m).grid);
    }

    /// Whether a sliding piece of `player` may go on to `to`, given whether it has already made
    /// a capture on its current ray: an empty square may be passed, a friendly piece stops the
    /// ray before it, and an enemy piece may be taken, which sets `capture` so that the ray ends
    /// there.
    pub fn is_traversable(&self, player: Color, to: &Pos, capture: &mut bool) -> (r: bool)
        ensures
            *old(capture) ==> !r && *final(capture),
            !*old(capture) ==> match self@.piece_at(*to) {
                None => r && !*final(capture),
                Some(p) => if p.color == player {
                    !r && !*final(capture)
                } else {
                    r && *final(capture)
                },
            },
    {
        if *capture {
            false
        } else {
            match self.cell(*to) {
                None => true,
                Some(piece) => {
                    if piece.color == player {
                        false
                    } else {
                        *capture = true;
                        true
                    }
                },
            }
        }
    }

    /// Appends the moves along direction `d` from `from` (see `Game::ray`).
    fn push_ray(&self, player: Color, from: Pos, d: Shift, out: &mut Vec<Move>)
        requires
            inside(from),
            -1 <= d.dx <= 1,
            -1 <= d.dy <= 1,
        ensures
            final(out)@ == old(out)@ + self@.ray(player, from, d, from, 7),
            forall|i: int|
                old(out)@.len() <= i < final(out)@.len() ==> (#[trigger] final(out)@[i]).from == from
                    && inside(final(out)@[i].to),
    {
        let ghost start = out@;
        let mut cur = from;
        let mut left: usize = 7;
        let mut capture = false;
        while left > 0
            invariant
                inside(cur),
                left <= 7,
                capture ==> left == 0,
                -1 <= d.dx <= 1,
                -1 <= d.dy <= 1,
                out@ + self@.ray(player, from, d, cur, left as nat) == start + self@.ray(
                    player,
                    from,
                    d,
                    from,
                    7,
                ),
                start.len() <= out@.len(),
                forall|i: int|
                    start.len() <= i < out@.len() ==> (#[trigger] out@[i]).from == from && inside(
                        out@[i].to,
                    ),
            decreases left,
        {
            let ghost before = out@;
            let to = cur.offset(d);
            assert(square(to.x as int, to.y as int) == to);
            if !Self::on_board(&to) {
                assert(out@ =~= before + self@.ray(player, from, d, cur, left as nat));
                left = 0;
            } else if self.is_traversable(player, &to, &mut capture) {
                out.push(Move::new(from, to));
                if capture {
                    assert(out@ =~= before + self@.ray(player, from, d, cur, left as nat));
                    left = 0;
                } else {
                    assert(out@ + self@.ray(player, from, d, to, (left - 1) as nat) =~= before
                        + self@.ray(player, from, d, cur, left as nat));
                    cur = to;
                    left = left - 1;
                }
            } else {
                assert(out@ =~= before + self@.ray(player, from, d, cur, left as nat));
                left = 0;
            }
        }
        assert(out@ =~= out@ + self@.ray(player, from, d, cur, 0));
    }

    /// The direction of the `k`-th ray of a sliding piece of this kind.
    fn slide_dir(kind: Kind, k: usize) -> (r: Shift)
        requires
            k < 8,
            k < slide_count(kind),
        ensures
            r == slide_dir(kind, k as int),
            -1 <= r.dx <= 1,
            -1 <= r.dy <= 1,
    {
        match kind {
            Kind::Rook => Shift::compass(2 * k),
            Kind::Bishop => Shift::compass(2 * k + 1),
            _ => Shift::compass(k),
        }
    }

    /// Appends the moves of a sliding piece of this kind on `from` (see `Game::rays`).
    fn push_rays(&self, player: Color, from: Pos, kind: Kind, out: &mut Vec<Move>)
        requires
            inside(from),
        ensures
            final(out)@ == old(out)@ + self@.rays(player, from, kind, 0),
            forall|i: int|
                old(out)@.len() <= i < final(out)@.len() ==> (#[trigger] final(out)@[i]).from == from
                    && inside(final(out)@[i].to),
    {
        let ghost start = out@;
        let count: usize = if kind == Kind::Queen {
            8
        } else {
            4
        };
        let mut k: usize = 0;
        while k < count
            invariant
                inside(from),
                count == slide_count(kind),
                k <= count <= 8,
                out@ + self@.rays(player, from, kind, k as int) == start + self@.rays(
                    player,
                    from,
                    kind,
                    0,
                ),
                start.len() <= out@.len(),
                forall|i: int|
                    start.len() <= i < out@.len() ==> (#[trigger] out@[i]).from == from && inside(
                        out@[i].to,
                    ),
            decreases count - k,
        {
            let ghost before = out@;
            let d = Self::slide_dir(kind, k);
            self.push_ray(player, from, d, out);
            assert(out@ + self@.rays(player, from, kind, k + 1) =~= before + self@.rays(
                player,
                from,
                kind,
                k as int,
            ));
            k = k + 1;
        }
        assert(out@ =~= out@ + self@.rays(player, from, kind, k as int));
    }

    /// Appends the single-step moves from `from`: the knight's leaps when `knight`, else the
    /// king's steps (see `Game::hops`).
    fn push_hops(&self, player: Color, from: Pos, knight: bool, out: &mut Vec<Move>)
        requires
            inside(from),
        ensures
            final(out)@ == old(out)@ + self@.hops(player, from, knight, 0),
            forall|i: int|
                old(out)@.len() <= i < final(out)@.len() ==> (#[trigger] final(out)@[i]).from == from
                    && inside(final(out)@[i].to),
    {
        let ghost start = out@;
        let mut i: usize = 0;
        while i < 8
            invariant
                inside(from),
                i <= 8,
                out@ + self@.hops(player, from, knight, i as int) == start + self@.hops(
                    player,
                    from,
                    knight,
                    0,
                ),
                start.len() <= out@.len(),
                forall|j: int|
                    start.len() <= j < out@.len() ==> (#[trigger] out@[j]).from == from && inside(
                        out@[j].to,
                    ),
            decreases 8 - i,
        {
            let ghost before = out@;
            let d = if knight {
                Shift::leap(i)
            } else {
                Shift::compass(i)
            };
            let to = from.offset(d);
            assert(square(to.x as int, to.y as int) == to);
            let open = Self::on_board(&to) && match self.cell(to) {
                Some(p) => p.color != player,
                None => true,
            };
            if open {
                out.push(Move::new(from, to));
            }
            assert(out@ + self@.hops(player, from, knight, i + 1) =~= before + self@.hops(
                player,
                from,
                knight,
                i as int,
            ));
            i = i + 1;
        }
        assert(out@ =~= out@ + self@.hops(player, from, knight, i as int));
    }

    /// Appends `m` when the square it lands on holds an enemy of `player`.
    fn push_capture(&self, player: Color, m: Move, out: &mut Vec<Move>)
        ensures
            final(out)@ == old(out)@ + only(
                self@.enemy_at(player, m.to.x as int, m.to.y as int),
                m,
            ),
    {
        if let Some(p) = self.cell(m.to) {
            if p.color != player {
                out.push(m);
            }
        }
        assert(out@ =~= old(out)@ + only(
            self@.enemy_at(player, m.to.x as int, m.to.y as int),
            m,
        ));
    }

    /// Appends the moves of a pawn of `player` on `from` (see `Game::pawn_moves`).
    #[verifier::rlimit(60)]
    fn push_pawn_moves(&self, player: Color, from: Pos, out: &mut Vec<Move>)
        requires
            inside(from),
        ensures
            final(out)@ == old(out)@ + self@.pawn_moves(player, from),
            forall|i: int|
                old(out)@.len() <= i < final(out)@.len() ==> (#[trigger] final(out)@[i]).from == from
                    && inside(final(out)@[i].to),
    {
        let ghost start = out@;
        let (fwd, first_row, side): (isize, isize, isize) = match player {
            Color::Black => (1, 1, 1),
            Color::White => (-1, 6, -1),
        };
        let ghost g = self@;
        let ghost x = from.x as int;
        let ghost y = from.y as int;
        assert(fwd == (if player == Color::Black { 1int } else { -1int }));
        assert(side == (if player == Color::Black { 1int } else { -1int }));
        assert(first_row == (if player == Color::Black { 1int } else { 6int }));
        let c1 = Pos::new(from.x + side, from.y + fwd);
        let c2 = Pos::new(from.x - side, from.y + fwd);
        assert(square(c1.x as int, c1.y as int) == c1);
        assert(square(c2.x as int, c2.y as int) == c2);
        self.push_capture(player, Move::new(from, c1), out);
        let ghost a = only(g.enemy_at(player, x + side, y + fwd), Move { from, to: c1 });
        assert(out@ == start + a);
        self.push_capture(player, Move::new(from, c2), out);
        let ghost b = only(g.enemy_at(player, x - side, y + fwd), Move { from, to: c2 });
        assert(out@ == start + a + b);
        let to = Pos::new(from.x, from.y + fwd);
        let too = Pos::new(from.x, from.y + 2 * fwd);
        assert(square(to.x as int, to.y as int) == to);
        assert(square(too.x as int, too.y as int) == too);
        let leap_ok = from.y == first_row && self.cell(to).is_none() && self.cell(too).is_none();
        let ghost c = only(
            y == first_row && g.at(x, y + fwd) is None && g.at(x, y + 2 * fwd) is None,
            Move { from, to: too },
        );
        if leap_ok {
            out.push(Move::new(from, too));
        }
        assert(out@ =~= start + a + b + c);
        let step_ok = self.cell(to).is_none() && Self::on_board(&to);
        let ghost e = only(g.at(x, y + fwd) is None && on_board(x, y + fwd), Move { from, to });
        if step_ok {
            out.push(Move::new(from, to));
        }
        assert(out@ =~= start + a + b + c + e);
        assert(g.pawn_moves(player, from) == a + b + c + e);
        assert(out@ =~= start + g.pawn_moves(player, from));
    }

    /// Appends the moves of a piece of `player` and the given kind on `from`.
    fn push_piece_moves(&self, player: Color, from: Pos, kind: Kind, out: &mut Vec<Move>)
        requires
            inside(from),
        ensures
            final(out)@ == old(out)@ + self@.piece_moves(player, from, kind),
            forall|i: int|
                old(out)@.len() <= i < final(out)@.len() ==> (#[trigger] final(out)@[i]).from == from
                    && inside(final(out)@[i].to),
    {
        match kind {
            Kind::Pawn => self.push_pawn_moves(player, from, out),
            Kind::Knight => self.push_hops(player, from, true, out),
            Kind::King => self.push_hops(player, from, false, out),
            _ => self.push_rays(player, from, kind, out),
        }
    }

    /// Every pseudo-legal move of `player`, in board order (see `Game::pseudo_moves`).
    pub fn unsafe_moves(&self, player: Color) -> (r: Vec<Move>)
        ensures
            r@ == self@.pseudo_moves(player),
            forall|i: int| 0 <= i < r@.len() ==> self@.sound(player, #[trigger] r@[i]),
    {
        let mut out: Vec<Move> = Vec::new();
        let mut x: isize = 0;
        while x < 8
            invariant
                0 <= x <= 8,
                out@ + self@.files_moves(player, x as int) == self@.pseudo_moves(player),
                forall|i: int| 0 <= i < out@.len() ==> self@.sound(player, #[trigger] out@[i]),
            decreases 8 - x,
        {
            let mut y: isize = 0;
            while y < 8
                invariant
                    0 <= x < 8,
                    0 <= y <= 8,
                    out@ + self@.file_moves(player, x as int, y as int) + self@.files_moves(
                        player,
                        x + 1,
                    ) == self@.pseudo_moves(player),
                    forall|i: int| 0 <= i < out@.len() ==> self@.sound(player, #[trigger] out@[i]),
                decreases 8 - y,
            {
                let ghost before = out@;
                let from = Pos::new(x, y);
                assert(square(x as int, y as int) == from);
                if let Some(piece) = self.board[y as usize][x as usize] {
                    if piece.color == player {
                        self.push_piece_moves(player, from, piece.kind, &mut out);
                    }
                }
                assert(out@ == before + self@.square_moves(player, x as int, y as int));
                assert(out@ + self@.file_moves(player, x as int, y + 1) + self@.files_moves(
                    player,
                    x + 1,
                ) =~= before + self@.file_moves(player, x as int, y as int) + self@.files_moves(
                    player,
                    x + 1,
                ));
                y = y + 1;
            }
            assert(out@ + self@.files_moves(player, x + 1) =~= out@ + self@.file_moves(
                player,
                x as int,
                8,
            ) + self@.files_moves(player, x + 1));
            x = x + 1;
        }
        assert(out@ =~= out@ + self@.files_moves(player, 8));
        out
    }

    /// Whether some pseudo-legal move of the other side lands on `player`'s cached king square.
    pub fn is_checked(&self, player: Color) -> (r: bool)
        ensures
            r == self@.is_checked(player),
    {
        let king = self.kings[player.king_index()];
        let replies = self.unsafe_moves(player.opponent());
        let mut i: usize = 0;
        while i < replies.len()
            invariant
                i <= replies@.len(),
                replies@ == self@.pseudo_moves(player.opp()),
                king == self@.king(player),
                forall|j: int| 0 <= j < i ==> (#[trigger] replies@[j]).to != king,
            decreases replies.len() - i,
        {
            if replies[i].to == king {
                return true;
            }
            i = i + 1;
        }
        false
    }

    /// Whether making `m` leaves the mover's own king unattacked.
    pub fn is_safe(&self, m: Move) -> (r: bool)
        requires
            inside(m.from),
            inside(m.to),
            self@.piece_at(m.from) is Some,
        ensures
            r == self@.is_safe(m),
    {
        let mut copy = *self;
        copy.perform(m);
        !copy.is_checked(self.turn)
    }

    /// The legal moves of the side to move, in board order.
    pub fn moves(&self) -> (r: Vec<Move>)
        ensures
            r@ == self@.legal_moves(),
            forall|i: int| 0 <= i < r@.len() ==> self@.sound(self.turn, #[trigger] r@[i]),
    {
        let candidates = self.unsafe_moves(self.turn);
        let mut out: Vec<Move> = Vec::new();
        let mut i: usize = 0;
        while i < candidates.len()
            invariant
                i <= candidates@.len(),
                candidates@ == self@.pseudo_moves(self.turn),
                forall|j: int|
                    0 <= j < candidates@.len() ==> self@.sound(self.turn, #[trigger] candidates@[j]),
                out@ == self@.keep_safe(candidates@.take(i as int)),
                forall|j: int| 0 <= j < out@.len() ==> self@.sound(self.turn, #[trigger] out@[j]),
            decreases candidates.len() - i,
        {
            let m = candidates[i];
            assert(self@.sound(self.turn, candidates@[i as int]));
            let keep = self.is_safe(m);
            let ghost prev = out@;
            proof {
                let next = candidates@.take(i + 1);
                assert(next.drop_last() =~= candidates@.take(i as int));
                assert(next.last() == m);
                reveal(Seq::filter);
                assert(self@.keep_safe(next) == (if keep {
                    prev.push(m)
                } else {
                    prev
                }));
            }
            if keep {
                out.push(m);
            }
            i = i + 1;
        }
        assert(candidates@.take(i as int) =~= candidates@);
        out
    }

    /// How the game ended, or `None` while the side to move still has a legal move.
    pub fn outcome(&self) -> (r: Option<Outcome>)
        ensures
            r == self@.outcome(),
    {
        let candidates = self.unsafe_moves(self.turn);
        let mut i: usize = 0;
        while i < candidates.len()
            invariant
                i <= candidates@.len(),
                candidates@ == self@.pseudo_moves(self.turn),
                forall|j: int|
                    0 <= j < candidates@.len() ==> self@.sound(self.turn, #[trigger] candidates@[j]),
                forall|j: int| 0 <= j < i ==> !self@.is_safe(#[trigger] candidates@[j]),
            decreases candidates.len() - i,
        {
            assert(self@.sound(self.turn, candidates@[i as int]));
            if self.is_safe(candidates[i]) {
                proof {
                    lemma_keep_safe_empty(self@, candidates@);
                }
                return None;
            }
            i = i + 1;
        }
        proof {
            lemma_keep_safe_empty(self@, candidates@);
        }
        if self.is_checked(self.turn) {
            Some(Outcome::Winner(self.turn.opponent()))
        } else {
            Some(Outcome::Stalemate)
        }
    }

    /// The signed material sum of the board.
    pub fn material(&self) -> (r: i16)
        ensures
            r as int == self@.material(),
    {
        let mut total: i16 = 0;
        let mut x: usize = 0;
        while x < 8
            invariant
                x <= 8,
                -72 * x <= total <= 72 * x,
                total + self@.files_material(x as int) == self@.material(),
            decreases 8 - x,
        {
            let mut y: usize = 0;
            while y < 8
                invariant
                    x < 8,
                    y <= 8,
                    -72 * x - 9 * y <= total <= 72 * x + 9 * y,
                    total + self@.file_material(x as int, y as int) + self@.files_material(x + 1)
                        == self@.material(),
                decreases 8 - y,
            {
                if let Some(piece) = self.board[y][x] {
                    total = total + piece.base_value();
                }
                y = y + 1;
            }
            x = x + 1;
        }
        total
    }

    /// The score of the state: the extreme of `i16` towards the winner of a finished game, zero
    /// for a stalemate, else the material sum (positive when White is ahead).
    pub fn evaluate(&self) -> (r: i16)
        ensures
            r as int == self@.evaluate(),
    {
        match self.outcome() {
            None => self.material(),
            Some(outcome) => outcome.value(),
        }
    }
}

} // verus!
