use vstd::prelude::*;

use crate::chess::{Chess, Color, Move};
use crate::rules::{lemma_evaluate_range, Game};

verus! {

/// The move a search picked, if any, and the score it found.
#[derive(Copy, Clone, Debug, PartialEq, Eq, Structural, Hash)]
pub struct BestMove {
    pub m: Option<Move>,
    pub score: i16,
}

/// The score a side starts from before it has seen any move: the worst one for it.
pub open spec fn worst(c: Color) -> int {
    match c {
        Color::White => i16::MIN as int,
        Color::Black => i16::MAX as int,
    }
}

/// Minimax with alpha-beta pruning to `depth` plies inside the window (`alpha`, `beta`): the
/// chosen move and its score. A finished game, or depth 0, gives no move and the evaluation.
pub open spec fn search(g: Game, depth: nat, alpha: int, beta: int) -> (Option<Move>, int)
    decreases depth, 0int,
{
    if depth == 0 || g.outcome() is Some {
        (None, g.evaluate())
    } else {
        scan(g, g.legal_moves(), 0, (depth - 1) as nat, alpha, beta, None, worst(g.turn))
    }
}

/// The pruned search over the moves `ms` of `g` from the `i`-th on, with each reply searched to
/// `child` plies, given the current window and the best move and score so far. White keeps a
/// strictly greater score and raises alpha, Black keeps a strictly smaller one and lowers beta;
/// the first move to close the window ends the scan.
pub open spec fn scan(
    g: Game,
    ms: Seq<Move>,
    i: int,
    child: nat,
    alpha: int,
    beta: int,
    best: Option<Move>,
    best_score: int,
) -> (Option<Move>, int)
    decreases child, ms.len() - i,
{
    if i < 0 || i >= ms.len() {
        (best, best_score)
    } else {
        let score = search(g.after(ms[i]), child, alpha, beta).1;
        if g.turn == Color::White {
            if score > best_score || best is None {
                let a = if score > alpha {
                    score
                } else {
                    alpha
                };
                if a >= beta {
                    (Some(ms[i]), score)
                } else {
                    scan(g, ms, i + 1, child, a, beta, Some(ms[i]), score)
                }
            } else {
                scan(g, ms, i + 1, child, alpha, beta, best, best_score)
            }
        } else {
            if score < best_score || best is None {
                let b = if score < beta {
                    score
                } else {
                    beta
                };
                if alpha >= b {
                    (Some(ms[i]), score)
                } else {
                    scan(g, ms, i + 1, child, alpha, b, Some(ms[i]), score)
                }
            } else {
                scan(g, ms, i + 1, child, alpha, beta, best, best_score)
            }
        }
    }
}

/// Whether `score` is strictly better for side `c` than `best_score`.
pub open spec fn better(c: Color, score: int, best_score: int) -> bool {
    match c {
        Color::White => score > best_score,
        Color::Black => score < best_score,
    }
}

/// Plain minimax to `depth` plies, without pruning: the first move of best score for the side
/// to move, and that score.
pub open spec fn exhaustive(g: Game, depth: nat) -> (Option<Move>, int)
    decreases depth, 0int,
{
    if depth == 0 || g.outcome() is Some {
        (None, g.evaluate())
    } else {
        exhaustive_scan(g, g.legal_moves(), 0, (depth - 1) as nat, None, worst(g.turn))
    }
}

/// The unpruned scan over the moves `ms` of `g` from the `i`-th on.
pub open spec fn exhaustive_scan(
    g: Game,
    ms: Seq<Move>,
    i: int,
    child: nat,
    best: Option<Move>,
    best_score: int,
) -> (Option<Move>, int)
    decreases child, ms.len() - i,
{
    if i < 0 || i >= ms.len() {
        (best, best_score)
    } else {
        let score = exhaustive(g.after(ms[i]), child).1;
        if best is None || better(g.turn, score, best_score) {
            exhaustive_scan(g, ms, i + 1, child, Some(ms[i]), score)
        } else {
            exhaustive_scan(g, ms, i + 1, child, best, best_score)
        }
    }
}

/// Searches `depth` plies with alpha-beta pruning inside the window (`alpha`, `beta`).
pub fn minimax(chess: &Chess, depth: u8, alpha: i16, beta: i16) -> (r: BestMove)
    ensures
        (r.m, r.score as int) == search(chess@, depth as nat, alpha as int, beta as int),
        r.m is Some <==> depth > 0 && chess@.outcome() is None,
        r.m is None ==> r.score as int == chess@.evaluate(),
    decreases depth,
{
    proof {
        lemma_search_move_iff_ongoing(chess@, depth as nat, alpha as int, beta as int);
    }
    if depth == 0 || chess.outcome().is_some() {
        return BestMove { m: None, score: chess.evaluate() };
    }
    let ghost g = chess@;
    let ghost child = (depth - 1) as nat;
    let ms = chess.moves();
    let white = chess.turn == Color::White;
    let mut lo = alpha;
    let mut hi = beta;
    let mut best_move: Option<Move> = None;
    let mut best_score: i16 = if white {
        i16::MIN
    } else {
        i16::MAX
    };
    let mut i: usize = 0;
    while i < ms.len()
        invariant
            depth > 0,
            g == chess@,
            child == depth - 1,
            white == (g.turn == Color::White),
            ms@ == g.legal_moves(),
            forall|j: int| 0 <= j < ms@.len() ==> g.sound(g.turn, #[trigger] ms@[j]),
            i <= ms@.len(),
            scan(g, ms@, i as int, child, lo as int, hi as int, best_move, best_score as int)
                == search(g, depth as nat, alpha as int, beta as int),
        decreases ms.len() - i,
    {
        let m = ms[i];
        assert(g.sound(g.turn, ms@[i as int]));
        let mut copy = *chess;
        copy.perform(m);
        let score = minimax(&copy, depth - 1, lo, hi).score;
        if white {
            if score > best_score || best_move.is_none() {
                best_score = score;
                best_move = Some(m);
                if score > lo {
                    lo = score;
                }
                if lo >= hi {
                    return BestMove { m: best_move, score: best_score };
                }
            }
        } else {
            if score < best_score || best_move.is_none() {
                best_score = score;
                best_move = Some(m);
                if score < hi {
                    hi = score;
                }
                if lo >= hi {
                    return BestMove { m: best_move, score: best_score };
                }
            }
        }
        i = i + 1;
    }
    BestMove { m: best_move, score: best_score }
}

/// The search entry point: alpha-beta minimax to `depth` plies over the full `i16` window.
pub fn best_move(chess: &Chess, depth: u8) -> (r: BestMove)
    ensures
        (r.m, r.score as int) == search(chess@, depth as nat, i16::MIN as int, i16::MAX as int),
        (r.m, r.score as int) == exhaustive(chess@, depth as nat),
        r.m is Some <==> depth > 0 && chess@.outcome() is None,
        r.m is None ==> r.score as int == chess@.evaluate(),
{
    proof {
        lemma_pruning_keeps_result(chess@, depth as nat);
        lemma_search_move_iff_ongoing(chess@, depth as nat, i16::MIN as int, i16::MAX as int);
    }
    minimax(chess, depth, i16::MIN, i16::MAX)
}

/// Plain minimax to `depth` plies, without pruning.
pub fn exhaustive_minimax(chess: &Chess, depth: u8) -> (r: BestMove)
    ensures
        (r.m, r.score as int) == exhaustive(chess@, depth as nat),
    decreases depth,
{
    if depth == 0 || chess.outcome().is_some() {
        return BestMove { m: None, score: chess.evaluate() };
    }
    let ghost g = chess@;
    let ghost child = (depth - 1) as nat;
    let ms = chess.moves();
    let mut best: Option<i16> = None;
    let mut best_move: Option<Move> = None;
    let mut best_score: i16 = if chess.turn == Color::White {
        i16::MIN
    } else {
        i16::MAX
    };
    let mut i: usize = 0;
    while i < ms.len()
        invariant
            depth > 0,
            g == chess@,
            child == depth - 1,
            ms@ == g.legal_moves(),
            forall|j: int| 0 <= j < ms@.len() ==> g.sound(g.turn, #[trigger] ms@[j]),
            i <= ms@.len(),
            best_move is None <==> best is None,
            best matches Some(b) ==> b == best_score,
            exhaustive_scan(g, ms@, i as int, child, best_move, best_score as int) == exhaustive(
                g,
                depth as nat,
            ),
        decreases ms.len() - i,
    {
        let m = ms[i];
        assert(g.sound(g.turn, ms@[i as int]));
        let mut copy = *chess;
        copy.perform(m);
        let score = exhaustive_minimax(&copy, depth - 1).score;
        if chess.turn.improves(score, best) {
            best = Some(score);
            best_score = score;
            best_move = Some(m);
        }
        i = i + 1;
    }
    BestMove { m: best_move, score: best_score }
}

/// Whether `v` is a value of `i16`.
pub open spec fn in_range(v: int) -> bool {
    i16::MIN <= v <= i16::MAX
}

/// What alpha-beta owes plain minimax inside the window (`alpha`, `beta`): a true value at or
/// below alpha is reported at or below alpha, one at or above beta at or above beta, and one
/// strictly inside the window exactly.
pub open spec fn window_ok(r: int, v: int, alpha: int, beta: int) -> bool {
    &&& v <= alpha ==> r <= alpha
    &&& v >= beta ==> r >= beta
    &&& alpha < v < beta ==> r == v
}

proof fn lemma_search_range(g: Game, depth: nat, alpha: int, beta: int)
    ensures
        in_range(search(g, depth, alpha, beta).1),
    decreases depth, 0int,
{
    lemma_evaluate_range(g);
    if !(depth == 0 || g.outcome() is Some) {
        lemma_scan_range(
            g,
            g.legal_moves(),
            0,
            (depth - 1) as nat,
            alpha,
            beta,
            None,
            worst(g.turn),
        );
    }
}

proof fn lemma_scan_range(
    g: Game,
    ms: Seq<Move>,
    i: int,
    child: nat,
    alpha: int,
    beta: int,
    best: Option<Move>,
    best_score: int,
)
    requires
        in_range(best_score),
    ensures
        in_range(scan(g, ms, i, child, alpha, beta, best, best_score).1),
    decreases child, ms.len() - i,
{
    if 0 <= i < ms.len() {
        let next = g.after(ms[i]);
        lemma_search_range(next, child, alpha, beta);
        let score = search(next, child, alpha, beta).1;
        if g.turn == Color::White {
            if score > best_score || best is None {
                let a = if score > alpha {
                    score
                } else {
                    alpha
                };
                if a < beta {
                    lemma_scan_range(g, ms, i + 1, child, a, beta, Some(ms[i]), score);
                }
            } else {
                lemma_scan_range(g, ms, i + 1, child, alpha, beta, best, best_score);
            }
        } else {
            if score < best_score || best is None {
                let b = if score < beta {
                    score
                } else {
                    beta
                };
                if alpha < b {
                    lemma_scan_range(g, ms, i + 1, child, alpha, b, Some(ms[i]), score);
                }
            } else {
                lemma_scan_range(g, ms, i + 1, child, alpha, beta, best, best_score);
            }
        }
    }
}

proof fn lemma_exhaustive_range(g: Game, depth: nat)
    ensures
        in_range(exhaustive(g, depth).1),
    decreases depth, 0int,
{
    lemma_evaluate_range(g);
    if !(depth == 0 || g.outcome() is Some) {
        lemma_exhaustive_scan_range(g, g.legal_moves(), 0, (depth - 1) as nat, None, worst(g.turn));
    }
}

proof fn lemma_exhaustive_scan_range(
    g: Game,
    ms: Seq<Move>,
    i: int,
    child: nat,
    best: Option<Move>,
    best_score: int,
)
    requires
        in_range(best_score),
    ensures
        in_range(exhaustive_scan(g, ms, i, child, best, best_score).1),
    decreases child, ms.len() - i,
{
    if 0 <= i < ms.len() {
        let next = g.after(ms[i]);
        lemma_exhaustive_range(next, child);
        let score = exhaustive(next, child).1;
        if best is None || better(g.turn, score, best_score) {
            lemma_exhaustive_scan_range(g, ms, i + 1, child, Some(ms[i]), score);
        } else {
            lemma_exhaustive_scan_range(g, ms, i + 1, child, best, best_score);
        }
    }
}

/// Once plain minimax has a move, its best score only improves for the side to move.
proof fn lemma_exhaustive_scan_mono(
    g: Game,
    ms: Seq<Move>,
    i: int,
    child: nat,
    best: Option<Move>,
    best_score: int,
)
    requires
        best is Some,
    ensures
        g.turn == Color::White ==> exhaustive_scan(g, ms, i, child, best, best_score).1
            >= best_score,
        g.turn == Color::Black ==> exhaustive_scan(g, ms, i, child, best, best_score).1
            <= best_score,
    decreases ms.len() - i,
{
    if 0 <= i < ms.len() {
        let score = exhaustive(g.after(ms[i]), child).1;
        if better(g.turn, score, best_score) {
            lemma_exhaustive_scan_mono(g, ms, i + 1, child, Some(ms[i]), score);
        } else {
            lemma_exhaustive_scan_mono(g, ms, i + 1, child, best, best_score);
        }
    }
}

/// Once plain minimax has reached the best score a side can have, nothing replaces its move.
proof fn lemma_exhaustive_scan_saturated(
    g: Game,
    ms: Seq<Move>,
    i: int,
    child: nat,
    best: Option<Move>,
    best_score: int,
)
    requires
        best is Some,
        g.turn == Color::White ==> best_score == i16::MAX,
        g.turn == Color::Black ==> best_score == i16::MIN,
    ensures
        exhaustive_scan(g, ms, i, child, best, best_score) == (best, best_score),
    decreases ms.len() - i,
{
    if 0 <= i < ms.len() {
        lemma_exhaustive_range(g.after(ms[i]), child);
        lemma_exhaustive_scan_saturated(g, ms, i + 1, child, best, best_score);
    }
}

/// Alpha-beta search keeps its window promise towards plain minimax.
proof fn lemma_window(g: Game, depth: nat, alpha: int, beta: int)
    requires
        alpha < beta,
    ensures
        window_ok(search(g, depth, alpha, beta).1, exhaustive(g, depth).1, alpha, beta),
    decreases depth, 0int,
{
    if !(depth == 0 || g.outcome() is Some) {
        let ms = g.legal_moves();
        let child = (depth - 1) as nat;
        if g.turn == Color::White {
            lemma_window_max(g, ms, 0, child, alpha, alpha, beta, None, worst(g.turn), None, worst(g.turn));
        } else {
            lemma_window_min(g, ms, 0, child, alpha, beta, beta, None, worst(g.turn), None, worst(g.turn));
        }
    }
}

/// The window promise for the scan of a White node that started with alpha `a0`.
proof fn lemma_window_max(
    g: Game,
    ms: Seq<Move>,
    i: int,
    child: nat,
    a0: int,
    a: int,
    b: int,
    best: Option<Move>,
    bs: int,
    pbest: Option<Move>,
    pbs: int,
)
    requires
        g.turn == Color::White,
        0 <= i,
        a0 < b,
        a < b,
        (best is None) == (pbest is None),
        best is None ==> a == a0 && bs == pbs,
        best is Some ==> {
            &&& a == (if bs > a0 { bs } else { a0 })
            &&& pbs < b
            &&& pbs <= a0 ==> bs <= a0
            &&& pbs > a0 ==> bs == pbs
        },
    ensures
        window_ok(
            scan(g, ms, i, child, a, b, best, bs).1,
            exhaustive_scan(g, ms, i, child, pbest, pbs).1,
            a0,
            b,
        ),
    decreases child, ms.len() - i,
{
    if i < ms.len() {
        let next = g.after(ms[i]);
        lemma_window(next, child, a, b);
        let s = search(next, child, a, b).1;
        let v = exhaustive(next, child).1;
        let picks = pbest is None || v > pbs;
        let pbest2 = if picks { Some(ms[i]) } else { pbest };
        let pbs2 = if picks { v } else { pbs };
        if s > bs || best is None {
            let a2 = if s > a { s } else { a };
            if a2 >= b {
                assert(picks);
                lemma_exhaustive_scan_mono(g, ms, i + 1, child, pbest2, pbs2);
            } else {
                lemma_window_max(g, ms, i + 1, child, a0, a2, b, Some(ms[i]), s, pbest2, pbs2);
            }
        } else {
            lemma_window_max(g, ms, i + 1, child, a0, a, b, best, bs, pbest2, pbs2);
        }
    }
}

/// The window promise for the scan of a Black node that started with beta `b0`.
proof fn lemma_window_min(
    g: Game,
    ms: Seq<Move>,
    i: int,
    child: nat,
    a: int,
    b0: int,
    b: int,
    best: Option<Move>,
    bs: int,
    pbest: Option<Move>,
    pbs: int,
)
    requires
        g.turn == Color::Black,
        0 <= i,
        a < b0,
        a < b,
        (best is None) == (pbest is None),
        best is None ==> b == b0 && bs == pbs,
        best is Some ==> {
            &&& b == (if bs < b0 { bs } else { b0 })
            &&& pbs > a
            &&& pbs >= b0 ==> bs >= b0
            &&& pbs < b0 ==> bs == pbs
        },
    ensures
        window_ok(
            scan(g, ms, i, child, a, b, best, bs).1,
            exhaustive_scan(g, ms, i, child, pbest, pbs).1,
            a,
            b0,
        ),
    decreases child, ms.len() - i,
{
    if i < ms.len() {
        let next = g.after(ms[i]);
        lemma_window(next, child, a, b);
        let s = search(next, child, a, b).1;
        let v = exhaustive(next, child).1;
        let picks = pbest is None || v < pbs;
        let pbest2 = if picks { Some(ms[i]) } else { pbest };
        let pbs2 = if picks { v } else { pbs };
        if s < bs || best is None {
            let b2 = if s < b { s } else { b };
            if a >= b2 {
                assert(picks);
                lemma_exhaustive_scan_mono(g, ms, i + 1, child, pbest2, pbs2);
            } else {
                lemma_window_min(g, ms, i + 1, child, a, b0, b2, Some(ms[i]), s, pbest2, pbs2);
            }
        } else {
            lemma_window_min(g, ms, i + 1, child, a, b0, b, best, bs, pbest2, pbs2);
        }
    }
}

/// The root scan of a White node over the full window picks what plain minimax picks.
proof fn lemma_root_max(
    g: Game,
    ms: Seq<Move>,
    i: int,
    child: nat,
    a: int,
    best: Option<Move>,
    bs: int,
)
    requires
        g.turn == Color::White,
        0 <= i,
        best is None ==> a == i16::MIN && bs == i16::MIN,
        best is Some ==> a == bs && in_range(bs) && bs < i16::MAX,
    ensures
        scan(g, ms, i, child, a, i16::MAX as int, best, bs) == exhaustive_scan(
            g,
            ms,
            i,
            child,
            best,
            bs,
        ),
    decreases ms.len() - i,
{
    if i < ms.len() {
        let next = g.after(ms[i]);
        lemma_window(next, child, a, i16::MAX as int);
        lemma_search_range(next, child, a, i16::MAX as int);
        lemma_exhaustive_range(next, child);
        let s = search(next, child, a, i16::MAX as int).1;
        let v = exhaustive(next, child).1;
        if best is None || v > a {
            assert(s == v);
            if v == i16::MAX {
                lemma_exhaustive_scan_saturated(g, ms, i + 1, child, Some(ms[i]), v);
            } else {
                lemma_root_max(g, ms, i + 1, child, s, Some(ms[i]), s);
            }
        } else {
            lemma_root_max(g, ms, i + 1, child, a, best, bs);
        }
    }
}

/// The root scan of a Black node over the full window picks what plain minimax picks.
proof fn lemma_root_min(
    g: Game,
    ms: Seq<Move>,
    i: int,
    child: nat,
    b: int,
    best: Option<Move>,
    bs: int,
)
    requires
        g.turn == Color::Black,
        0 <= i,
        best is None ==> b == i16::MAX && bs == i16::MAX,
        best is Some ==> b == bs && in_range(bs) && bs > i16::MIN,
    ensures
        scan(g, ms, i, child, i16::MIN as int, b, best, bs) == exhaustive_scan(
            g,
            ms,
            i,
            child,
            best,
            bs,
        ),
    decreases ms.len() - i,
{
    if i < ms.len() {
        let next = g.after(ms[i]);
        lemma_window(next, child, i16::MIN as int, b);
        lemma_search_range(next, child, i16::MIN as int, b);
        lemma_exhaustive_range(next, child);
        let s = search(next, child, i16::MIN as int, b).1;
        let v = exhaustive(next, child).1;
        if best is None || v < b {
            assert(s == v);
            if v == i16::MIN {
                lemma_exhaustive_scan_saturated(g, ms, i + 1, child, Some(ms[i]), v);
            } else {
                lemma_root_min(g, ms, i + 1, child, s, Some(ms[i]), s);
            }
        } else {
            lemma_root_min(g, ms, i + 1, child, b, best, bs);
        }
    }
}

/// Pruning never changes the result: over the full `i16` window, alpha-beta search returns the
/// same move and score as plain minimax to the same depth.
pub proof fn lemma_pruning_keeps_result(g: Game, depth: nat)
    ensures
        search(g, depth, i16::MIN as int, i16::MAX as int) == exhaustive(g, depth),
{
    if !(depth == 0 || g.outcome() is Some) {
        let ms = g.legal_moves();
        let child = (depth - 1) as nat;
        if g.turn == Color::White {
            lemma_root_max(g, ms, 0, child, i16::MIN as int, None, i16::MIN as int);
        } else {
            lemma_root_min(g, ms, 0, child, i16::MAX as int, None, i16::MAX as int);
        }
    }
}

proof fn lemma_scan_some(
    g: Game,
    ms: Seq<Move>,
    i: int,
    child: nat,
    alpha: int,
    beta: int,
    best: Option<Move>,
    best_score: int,
)
    requires
        best is Some || 0 <= i < ms.len(),
    ensures
        scan(g, ms, i, child, alpha, beta, best, best_score).0 is Some,
    decreases ms.len() - i,
{
    if 0 <= i < ms.len() {
        let score = search(g.after(ms[i]), child, alpha, beta).1;
        if g.turn == Color::White {
            if score > best_score || best is None {
                let a = if score > alpha {
                    score
                } else {
                    alpha
                };
                lemma_scan_some(g, ms, i + 1, child, a, beta, Some(ms[i]), score);
            } else {
                lemma_scan_some(g, ms, i + 1, child, alpha, beta, best, best_score);
            }
        } else {
            if score < best_score || best is None {
                let b = if score < beta {
                    score
                } else {
                    beta
                };
                lemma_scan_some(g, ms, i + 1, child, alpha, b, Some(ms[i]), score);
            } else {
                lemma_scan_some(g, ms, i + 1, child, alpha, beta, best, best_score);
            }
        }
    }
}

/// The search names a move exactly when it has depth to spend and the game is not over;
/// without one, its score is the evaluation of the state.
pub proof fn lemma_search_move_iff_ongoing(g: Game, depth: nat, alpha: int, beta: int)
    ensures
        search(g, depth, alpha, beta).0 is Some <==> depth > 0 && g.outcome() is None,
        search(g, depth, alpha, beta).0 is None ==> search(g, depth, alpha, beta).1
            == g.evaluate(),
{
    if depth > 0 && g.outcome() is None {
        lemma_scan_some(
            g,
            g.legal_moves(),
            0,
            (depth - 1) as nat,
            alpha,
            beta,
            None,
            worst(g.turn),
        );
    }
}

/// At depth 0 the search names no move and reports the evaluation of the state.
pub proof fn lemma_depth_zero(g: Game, alpha: int, beta: int)
    ensures
        search(g, 0, alpha, beta) == (None::<Move>, g.evaluate()),
{
}

} // verus!
