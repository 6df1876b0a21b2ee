use vstd::prelude::*;

use crate::chess::{Color, Kind, Move, Outcome, Piece};
use crate::pos::{compass, leap, Pos, Shift};

verus! {

/// The mathematical model of a game state: rows of cells (`grid[y][x]`), the side to move, and
/// the king cache (White's king in slot 0, Black's in slot 1).
pub struct Game {
    pub grid: Seq<Seq<Option<Piece>>>,
    pub turn: Color,
    pub kings: Seq<Pos>,
}

/// Whether both coordinates lie in `[0, 8)`.
pub open spec fn on_board(x: int, y: int) -> bool {
    0 <= x < 8 && 0 <= y < 8
}

/// The square with the given integer coordinates.
pub open spec fn square(x: int, y: int) -> Pos {
    Pos { x: x as isize, y: y as isize }
}

/// Whether `p` lies on the board.
pub open spec fn inside(p: Pos) -> bool {
    on_board(p.x as int, p.y as int)
}

/// Whether `score` beats the best score so far for side `c`.
pub open spec fn improves(c: Color, score: int, best: Option<i16>) -> bool {
    match best {
        None => true,
        Some(b) => match c {
            Color::Black => score < b,
            Color::White => score > b,
        },
    }
}

/// The one-move sequence `[m]` if `cond` holds, else the empty one.
pub open spec fn only(cond: bool, m: Move) -> Seq<Move> {
    if cond {
        seq![m]
    } else {
        seq![]
    }
}

/// The direction of the `k`-th ray of a sliding piece: a rook walks the four cardinal
/// directions, a bishop the four diagonals, a queen all eight.
pub open spec fn slide_dir(kind: Kind, k: int) -> Shift {
    match kind {
        Kind::Rook => compass(2 * k),
        Kind::Bishop => compass(2 * k + 1),
        _ => compass(k),
    }
}

/// How many rays a piece of this kind walks.
pub open spec fn slide_count(kind: Kind) -> int {
    match kind {
        Kind::Queen => 8,
        _ => 4,
    }
}

/// The kind standing on file `x` of a back rank in the opening layout.
pub open spec fn back_rank(x: int) -> Kind {
    if x == 0 || x == 7 {
        Kind::Rook
    } else if x == 1 || x == 6 {
        Kind::Knight
    } else if x == 2 || x == 5 {
        Kind::Bishop
    } else if x == 3 {
        Kind::Queen
    } else {
        Kind::King
    }
}

/// The content of cell (`x`, `y`) in the opening layout.
pub open spec fn initial_cell(x: int, y: int) -> Option<Piece> {
    if y == 0 {
        Some(Piece { color: Color::Black, kind: back_rank(x) })
    } else if y == 1 {
        Some(Piece { color: Color::Black, kind: Kind::Pawn })
    } else if y == 6 {
        Some(Piece { color: Color::White, kind: Kind::Pawn })
    } else if y == 7 {
        Some(Piece { color: Color::White, kind: back_rank(x) })
    } else {
        None
    }
}

impl Game {
    /// Eight rows of eight cells and two cached king squares.
    pub open spec fn wf(self) -> bool {
        &&& self.grid.len() == 8
        &&& forall|y: int| 0 <= y < 8 ==> (#[trigger] self.grid[y]).len() == 8
        &&& self.kings.len() == 2
    }

    /// Whether the king cache is right: each side's cached square holds that side's king.
    pub open spec fn kings_cached(self) -> bool {
        &&& self.piece_at(self.king(Color::White)) == Some(Piece { color: Color::White, kind: Kind::King })
        &&& self.piece_at(self.king(Color::Black)) == Some(Piece { color: Color::Black, kind: Kind::King })
    }

    /// The content of cell (`x`, `y`); nothing off the board.
    pub open spec fn at(self, x: int, y: int) -> Option<Piece> {
        if on_board(x, y) {
            self.grid[y][x]
        } else {
            None
        }
    }

    /// The content of square `p`.
    pub open spec fn piece_at(self, p: Pos) -> Option<Piece> {
        self.at(p.x as int, p.y as int)
    }

    /// Whether the cell holds a piece that `player` may capture.
    pub open spec fn enemy_at(self, player: Color, x: int, y: int) -> bool {
        match self.at(x, y) {
            Some(p) => p.color != player,
            None => false,
        }
    }

    /// Whether `player` may land on the cell: on the board and not held by its own piece.
    pub open spec fn open_to(self, player: Color, x: int, y: int) -> bool {
        on_board(x, y) && match self.at(x, y) {
            Some(p) => p.color != player,
            None => true,
        }
    }

    /// The moves of a pawn of `player` on `from`: its two diagonal captures, the double step
    /// from its starting row, and the single step, in that order.
    pub open spec fn pawn_moves(self, player: Color, from: Pos) -> Seq<Move> {
        let fwd: int = if player == Color::Black { 1 } else { -1 };
        let start: int = if player == Color::Black { 1 } else { 6 };
        let side: int = if player == Color::Black { 1 } else { -1 };
        let x = from.x as int;
        let y = from.y as int;
        only(self.enemy_at(player, x + side, y + fwd), Move { from, to: square(x + side, y + fwd) })
            + only(
            self.enemy_at(player, x - side, y + fwd),
            Move { from, to: square(x - side, y + fwd) },
        ) + only(
            y == start && self.at(x, y + fwd) is None && self.at(x, y + 2 * fwd) is None,
            Move { from, to: square(x, y + 2 * fwd) },
        ) + only(
            self.at(x, y + fwd) is None && on_board(x, y + fwd),
            Move { from, to: square(x, y + fwd) },
        )
    }

    /// Whether `m` starts on a square holding a piece of `player` and both its squares lie on
    /// the board.
    pub open spec fn sound(self, player: Color, m: Move) -> bool {
        &&& inside(m.from)
        &&& inside(m.to)
        &&& self.piece_at(m.from) matches Some(p) && p.color == player
    }

    /// The single-step moves from `from` (the knight's leaps when `knight`, else the king's
    /// eight neighbours), from the `i`-th offset on.
    pub open spec fn hops(self, player: Color, from: Pos, knight: bool, i: int) -> Seq<Move>
        decreases 8 - i,
    {
        if i >= 8 {
            seq![]
        } else {
            let d = if knight {
                leap(i)
            } else {
                compass(i)
            };
            let x = from.x + d.dx;
            let y = from.y + d.dy;
            only(self.open_to(player, x, y), Move { from, to: square(x, y) }) + self.hops(
                player,
                from,
                knight,
                i + 1,
            )
        }
    }

    /// The moves along direction `d` from `from`, continuing after square `cur` for at most
    /// `left` more squares: empty squares are passed, the first occupied one ends the ray and
    /// is included only when it holds an enemy piece.
    pub open spec fn ray(self, player: Color, from: Pos, d: Shift, cur: Pos, left: nat) -> Seq<
        Move,
    >
        decreases left,
    {
        if left == 0 {
            seq![]
        } else {
            let x = cur.x + d.dx;
            let y = cur.y + d.dy;
            let m = Move { from, to: square(x, y) };
            if !on_board(x, y) {
                seq![]
            } else {
                match self.at(x, y) {
                    None => seq![m] + self.ray(player, from, d, square(x, y), (left - 1) as nat),
                    Some(p) => if p.color == player {
                        seq![]
                    } else {
                        seq![m]
                    },
                }
            }
        }
    }

    /// The rays of a sliding piece of this kind from the `k`-th on.
    pub open spec fn rays(self, player: Color, from: Pos, kind: Kind, k: int) -> Seq<Move>
        decreases 8 - k,
    {
        if k >= 8 || k >= slide_count(kind) {
            seq![]
        } else {
            self.ray(player, from, slide_dir(kind, k), from, 7) + self.rays(player, from, kind, k + 1)
        }
    }

    /// The moves of a piece of `player` and the given kind on `from`, ignoring self-check.
    pub open spec fn piece_moves(self, player: Color, from: Pos, kind: Kind) -> Seq<Move> {
        match kind {
            Kind::Pawn => self.pawn_moves(player, from),
            Kind::Knight => self.hops(player, from, true, 0),
            Kind::King => self.hops(player, from, false, 0),
            _ => self.rays(player, from, kind, 0),
        }
    }

    /// The moves of the piece on (`x`, `y`) if it belongs to `player`.
    pub open spec fn square_moves(self, player: Color, x: int, y: int) -> Seq<Move> {
        match self.at(x, y) {
            Some(p) => if p.color == player {
                self.piece_moves(player, square(x, y), p.kind)
            } else {
                seq![]
            },
            None => seq![],
        }
    }

    /// The moves of `player`'s pieces on file `x`, from row `y` down.
    pub open spec fn file_moves(self, player: Color, x: int, y: int) -> Seq<Move>
        decreases 8 - y,
    {
        if y >= 8 {
            seq![]
        } else {
            self.square_moves(player, x, y) + self.file_moves(player, x, y + 1)
        }
    }

    /// The moves of `player`'s pieces on files `x` and right of it.
    pub open spec fn files_moves(self, player: Color, x: int) -> Seq<Move>
        decreases 8 - x,
    {
        if x >= 8 {
            seq![]
        } else {
            self.file_moves(player, x, 0) + self.files_moves(player, x + 1)
        }
    }

    /// Every pseudo-legal move of `player` (one that may leave its own king attacked), file by
    /// file from the left, each file from row 0 down.
    pub open spec fn pseudo_moves(self, player: Color) -> Seq<Move> {
        self.files_moves(player, 0)
    }

    /// The cached square of `player`'s king.
    pub open spec fn king(self, player: Color) -> Pos {
        self.kings[player.slot()]
    }

    /// Whether some pseudo-legal move of the other side lands on `player`'s king.
    pub open spec fn is_checked(self, player: Color) -> bool {
        exists|i: int|
            0 <= i < self.pseudo_moves(player.opp()).len() && (#[trigger] self.pseudo_moves(
                player.opp(),
            )[i]).to == self.king(player)
    }

    /// The state after moving the piece on `m.from` to `m.to`: the destination's occupant is
    /// replaced, the king cache follows a moving king, and the turn passes.
    pub open spec fn after(self, m: Move) -> Game {
        let fx = m.from.x as int;
        let fy = m.from.y as int;
        let tx = m.to.x as int;
        let ty = m.to.y as int;
        let piece = self.at(fx, fy);
        let kings = match piece {
            Some(p) => if p.kind == Kind::King {
                self.kings.update(self.turn.slot(), m.to)
            } else {
                self.kings
            },
            None => self.kings,
        };
        let cleared = self.grid.update(fy, self.grid[fy].update(fx, None));
        Game { grid: cleared.update(ty, cleared[ty].update(tx, piece)), turn: self.turn.opp(), kings }
    }

    /// Whether making `m` leaves the mover's own king unattacked.
    pub open spec fn is_safe(self, m: Move) -> bool {
        !self.after(m).is_checked(self.turn)
    }

    /// The moves of `ms` that are safe, in order.
    pub open spec fn keep_safe(self, ms: Seq<Move>) -> Seq<Move> {
        ms.filter(|m: Move| self.is_safe(m))
    }

    /// The legal moves of the side to move: its pseudo-legal moves that are safe, in order.
    pub open spec fn legal_moves(self) -> Seq<Move> {
        self.keep_safe(self.pseudo_moves(self.turn))
    }

    /// The end of the game, if it is over: with no legal move, a checked mover has lost and an
    /// unchecked one is stalemated.
    pub open spec fn outcome(self) -> Option<Outcome> {
        if self.legal_moves().len() == 0 {
            if self.is_checked(self.turn) {
                Some(Outcome::Winner(self.turn.opp()))
            } else {
                Some(Outcome::Stalemate)
            }
        } else {
            None
        }
    }

    /// The signed worth of the cell's occupant.
    pub open spec fn worth_at(self, x: int, y: int) -> int {
        match self.at(x, y) {
            Some(p) => p.worth(),
            None => 0,
        }
    }

    /// The material of file `x` from row `y` down.
    pub open spec fn file_material(self, x: int, y: int) -> int
        decreases 8 - y,
    {
        if y >= 8 {
            0
        } else {
            self.worth_at(x, y) + self.file_material(x, y + 1)
        }
    }

    /// The material of files `x` and right of it.
    pub open spec fn files_material(self, x: int) -> int
        decreases 8 - x,
    {
        if x >= 8 {
            0
        } else {
            self.file_material(x, 0) + self.files_material(x + 1)
        }
    }

    /// The signed material sum of the whole board.
    pub open spec fn material(self) -> int {
        self.files_material(0)
    }

    /// The score of the state: the outcome's score when the game is over, else the material.
    pub open spec fn evaluate(self) -> int {
        match self.outcome() {
            Some(o) => o.score(),
            None => self.material(),
        }
    }
}

/// A list holds no safe move exactly when each of its moves is unsafe.
pub proof fn lemma_keep_safe_empty(g: Game, ms: Seq<Move>)
    ensures
        g.keep_safe(ms).len() == 0 <==> forall|j: int| 0 <= j < ms.len() ==> !g.is_safe(#[trigger] ms[j]),
{
    let f = |m: Move| g.is_safe(m);
    if g.keep_safe(ms).len() == 0 {
        assert forall|j: int| 0 <= j < ms.len() implies !g.is_safe(#[trigger] ms[j]) by {
            if g.is_safe(ms[j]) {
                ms.lemma_filter_contains(f, j);
            }
        }
    } else {
        let e = g.keep_safe(ms)[0];
        ms.lemma_filter_pred(f, 0);
        assert(g.keep_safe(ms).contains(e));
        ms.lemma_filter_contains_rev(f, e);
        let j = choose|j: int| 0 <= j < ms.len() && ms[j] == e;
        assert(g.is_safe(ms[j]));
    }
}

proof fn lemma_file_material_bounds(g: Game, x: int, y: int)
    requires
        0 <= y <= 8,
    ensures
        -9 * (8 - y) <= g.file_material(x, y) <= 9 * (8 - y),
    decreases 8 - y,
{
    if y < 8 {
        lemma_file_material_bounds(g, x, y + 1);
    }
}

proof fn lemma_files_material_bounds(g: Game, x: int)
    requires
        0 <= x <= 8,
    ensures
        -72 * (8 - x) <= g.files_material(x) <= 72 * (8 - x),
    decreases 8 - x,
{
    if x < 8 {
        lemma_file_material_bounds(g, x, 0);
        lemma_files_material_bounds(g, x + 1);
    }
}

/// Every evaluation is a value of `i16`.
pub proof fn lemma_evaluate_range(g: Game)
    ensures
        i16::MIN <= g.evaluate() <= i16::MAX,
{
    lemma_files_material_bounds(g, 0);
}

/// Every legal move is legal in the full sense: making it never leaves the mover's own king
/// attacked.
pub proof fn lemma_legal_moves_are_safe(g: Game, i: int)
    requires
        0 <= i < g.legal_moves().len(),
    ensures
        !g.after(g.legal_moves()[i]).is_checked(g.turn),
        g.pseudo_moves(g.turn).contains(g.legal_moves()[i]),
{
    let f = |m: Move| g.is_safe(m);
    g.pseudo_moves(g.turn).lemma_filter_pred(f, i);
    assert(g.keep_safe(g.pseudo_moves(g.turn)).contains(g.legal_moves()[i]));
    g.pseudo_moves(g.turn).lemma_filter_contains_rev(f, g.legal_moves()[i]);
}

/// The game goes on exactly while the side to move has a legal move.
pub proof fn lemma_ongoing_iff_moves(g: Game)
    ensures
        g.outcome() is None <==> g.legal_moves().len() > 0,
{
}

/// Without a legal move, a checked mover has lost to the other side and an unchecked one is
/// stalemated.
pub proof fn lemma_stuck_outcome(g: Game)
    requires
        g.legal_moves().len() == 0,
    ensures
        g.is_checked(g.turn) ==> g.outcome() == Some(Outcome::Winner(g.turn.opp())),
        !g.is_checked(g.turn) ==> g.outcome() == Some(Outcome::Stalemate),
{
}

proof fn lemma_file_material_of_cells(a: Game, b: Game, x: int, y: int)
    requires
        forall|x: int, y: int| on_board(x, y) ==> a.at(x, y) == b.at(x, y),
    ensures
        a.file_material(x, y) == b.file_material(x, y),
    decreases 8 - y,
{
    if y < 8 {
        lemma_file_material_of_cells(a, b, x, y + 1);
    }
}

proof fn lemma_files_material_of_cells(a: Game, b: Game, x: int)
    requires
        forall|x: int, y: int| on_board(x, y) ==> a.at(x, y) == b.at(x, y),
    ensures
        a.files_material(x) == b.files_material(x),
    decreases 8 - x,
{
    if x < 8 {
        lemma_file_material_of_cells(a, b, x, 0);
        lemma_files_material_of_cells(a, b, x + 1);
    }
}

/// The material score is a function of the board's cells alone: the turn and the king cache
/// do not enter it.
pub proof fn lemma_material_of_cells(a: Game, b: Game)
    requires
        forall|x: int, y: int| on_board(x, y) ==> a.at(x, y) == b.at(x, y),
    ensures
        a.material() == b.material(),
{
    lemma_files_material_of_cells(a, b, 0);
}

/// Evaluation is deterministic: the same state always gets the same score.
pub proof fn lemma_evaluate_deterministic(a: Game, b: Game)
    requires
        a == b,
    ensures
        a.evaluate() == b.evaluate(),
{
}

/// A move of the side to move that takes no king keeps the king cache right.
pub proof fn lemma_move_keeps_kings_cached(g: Game, m: Move)
    requires
        g.wf(),
        g.kings_cached(),
        g.sound(g.turn, m),
        !(g.piece_at(m.to) matches Some(p) && p.kind == Kind::King),
    ensures
        g.after(m).kings_cached(),
{
    let h = g.after(m);
    assert forall|x: int, y: int| on_board(x, y) implies #[trigger] h.at(x, y) == (if x == m.to.x
        && y == m.to.y {
        g.piece_at(m.from)
    } else if x == m.from.x && y == m.from.y {
        None
    } else {
        g.at(x, y)
    }) by {}
    assert(h.at(h.king(Color::White).x as int, h.king(Color::White).y as int) == Some(
        Piece { color: Color::White, kind: Kind::King },
    ));
    assert(h.at(h.king(Color::Black).x as int, h.king(Color::Black).y as int) == Some(
        Piece { color: Color::Black, kind: Kind::King },
    ));
}

} // verus!
