//! The alpha-beta searcher with selective extensions, futility pruning
//! and transposition probes, and the iterative-deepening driver above it.
use vstd::prelude::*;
use crate::board::{board_rep, board_pos, pos_of, moves_of, apply_of, board_in_check, board_apply,
    board_undo, board_white_to_move, clone_board, time_now, time_elapsed, duration_millis,
    zobrist_of, white_to_move_of};
use crate::engine::{Engine, TranspositionObject, tt_slot, probe_spec, MINIMUM_EVAL, MAXIMUM_EVAL,
    MAX_EXTENSIONS};
use crate::eval::{evaluate, eval_spec, lemma_eval_bounds};
use crate::ordering::{gen_and_order_moves, is_capture_exec};

verus! {

/// The engine fields the searcher leaves alone: everything but the node
/// counter and the transposition table.
pub open spec fn same_config(a: Engine, b: Engine) -> bool {
    &&& a.board == b.board
    &&& a.search_stopped == b.search_stopped
    &&& a.active == b.active
    &&& a.wtime == b.wtime
    &&& a.btime == b.btime
    &&& a.movetime == b.movetime
    &&& a.depth == b.depth
    &&& a.instant == b.instant
    &&& a.hash_table_size_mb == b.hash_table_size_mb
}

/// The searcher's leaf test: no depth left, or no move to play.
pub open spec fn search_leaf(pos: Seq<u64>, depth: u8) -> bool {
    depth == 0 || moves_of(pos).len() == 0
}

/// Whether the searcher takes the stored shortcut at this node: the
/// probed entry bears a move, at depth no less than the node's, and that
/// move is one of the position's generated moves. The last condition is
/// a guard this engine adds: a stored hint is only trusted when it names
/// a move of the position, which a full hash collision need not.
pub open spec fn tt_cutoff(
    table: Seq<TranspositionObject>,
    pos: Seq<u64>,
    depth: u8,
) -> bool {
    &&& probe_spec(table, zobrist_of(pos)).best_move != 0
    &&& probe_spec(table, zobrist_of(pos)).depth >= depth
    &&& moves_of(pos).contains(probe_spec(table, zobrist_of(pos)).best_move)
}

fn contains_move(v: &Vec<u16>, mv: u16) -> (r: bool)
    ensures
        r == v@.contains(mv),
{
    let mut i: usize = 0;
    while i < v.len()
        invariant
            i <= v@.len(),
            forall|k: int| 0 <= k < i ==> v@[k] != mv,
        decreases v@.len() - i,
    {
        if v[i] == mv {
            return true;
        }
        i = i + 1;
    }
    false
}

/// Whether a child node is futile for the bound `alpha`: the static
/// evaluation plus a margin of 300 times the squared depth stays below it.
pub open spec fn futile_spec(pos: Seq<u64>, depth: int, alpha: int) -> bool {
    300 * depth * depth + eval_spec(pos) < alpha
}

pub fn futile(board: &pleco::Board, depth: u8, alpha: i32) -> (r: bool)
    ensures
        r == futile_spec(board_pos(*board), depth as int, alpha as int),
{
    let stand_pat = evaluate(board);
    let di: i32 = depth as i32;
    proof {
        assert((300 * di) * di <= 19507500 && (300 * di) * di >= 0) by (nonlinear_arith)
            requires
                0 <= di <= 255,
        ;
    }
    let futility_margin: i32 = 300 * di * di;
    futility_margin + stand_pat < alpha
}

/// The recursive alpha-beta search. It restores the board it was given
/// and touches nothing of the engine but the node counter and the
/// transposition table. At a leaf it returns the null move and the
/// static evaluation, counting one node; on the stored shortcut it
/// returns the probed entry's move and score and changes nothing; on
/// every other path it returns the out-of-time sentinel (null move,
/// score -1), or a move of the position with a score no worse than the
/// caller's bound — at least alpha for White, at most beta for Black —
/// and then leaves exactly that result in the position's table slot.
pub fn minimax(
    engine: &mut Engine,
    board: &mut pleco::Board,
    depth: u8,
    alpha: i32,
    beta: i32,
    search_extensions: u8,
) -> (r: (u16, i32))
    requires
        old(engine).wf(),
        alpha >= MINIMUM_EVAL,
        beta >= MINIMUM_EVAL,
        search_extensions <= MAX_EXTENSIONS,
    ensures
        final(engine).wf(),
        same_config(*old(engine), *final(engine)),
        board_rep(*final(board)) == board_rep(*old(board)),
        r.0 == 0 || moves_of(board_pos(*old(board))).contains(r.0),
        r.1 >= MINIMUM_EVAL,
        search_leaf(board_pos(*old(board)), depth) ==> ({
            &&& r.0 == 0
            &&& r.1 as int == eval_spec(board_pos(*old(board)))
            &&& final(engine).transposition_table@ == old(engine).transposition_table@
            &&& final(engine).nodes as int == (if old(engine).nodes < u128::MAX {
                old(engine).nodes + 1
            } else {
                old(engine).nodes as int
            })
        }),
        !search_leaf(board_pos(*old(board)), depth) && tt_cutoff(
            old(engine).transposition_table@,
            board_pos(*old(board)),
            depth,
        ) ==> ({
            let e = probe_spec(
                old(engine).transposition_table@,
                zobrist_of(board_pos(*old(board))),
            );
            &&& r == (e.best_move, e.score)
            &&& final(engine).transposition_table@ == old(engine).transposition_table@
            &&& final(engine).nodes == old(engine).nodes
        }),
        !search_leaf(board_pos(*old(board)), depth) && !tt_cutoff(
            old(engine).transposition_table@,
            board_pos(*old(board)),
            depth,
        ) ==> (r.0 == 0 && r.1 == -1) || ((white_to_move_of(board_pos(*old(board))) ==> r.1
            >= alpha) && (!white_to_move_of(board_pos(*old(board))) ==> r.1 <= beta)),
        !search_leaf(board_pos(*old(board)), depth) && !tt_cutoff(
            old(engine).transposition_table@,
            board_pos(*old(board)),
            depth,
        ) && !(r.0 == 0 && r.1 == -1) ==> final(engine).transposition_table@[tt_slot(
            final(engine).transposition_table@,
            zobrist_of(board_pos(*old(board))),
        )] == (TranspositionObject {
            hash: zobrist_of(board_pos(*old(board))),
            score: r.1,
            depth: depth,
            best_move: r.0,
        }),
    decreases depth, MAX_EXTENSIONS - search_extensions,
{
    let ghost rep0 = board_rep(*board);
    let ghost pos0 = board_pos(*board);
    let ghost t0 = old(engine).transposition_table@;
    let moves = gen_and_order_moves(board);
    if depth == 0 || moves.len() == 0 {
        if engine.nodes < u128::MAX {
            engine.nodes = engine.nodes + 1;
        }
        let e = evaluate(board);
        proof {
            lemma_eval_bounds(pos0);
        }
        return (0, e);
    }
    let possible_transposition = engine.transposition_find(board);
    if possible_transposition.best_move != 0 && possible_transposition.depth >= depth {
        if contains_move(&moves, possible_transposition.best_move) {
            proof {
                let idx = choose|k: int|
                    0 <= k < moves@.len() && moves@[k] == possible_transposition.best_move;
                assert(moves_of(pos0).contains(moves@[idx]));
            }
            return (possible_transposition.best_move, possible_transposition.score);
        }
    }
    proof {
        broadcast use vstd::seq_lib::group_to_multiset_ensures;

        let e = probe_spec(t0, zobrist_of(pos0));
        if moves_of(pos0).contains(e.best_move) {
            assert(moves_of(pos0).to_multiset().count(e.best_move) > 0);
            assert(moves@.contains(e.best_move));
        }
        assert(!tt_cutoff(t0, pos0, depth));
    }
    if engine.out_of_time() {
        return (0, -1);
    }
    let mut best_move: u16 = 0;
    if board_white_to_move(board) {
        let mut a = alpha;
        let mut i: usize = 0;
        let mut cutoff = false;
        while i < moves.len() && !cutoff
            invariant
                i <= moves@.len(),
                engine.wf(),
                same_config(*old(engine), *engine),
                board_rep(*board) == rep0,
                rep0 == board_rep(*old(board)),
                pos0 == board_pos(*old(board)),
                pos0 == pos_of(rep0),
                t0 == old(engine).transposition_table@,
                !search_leaf(pos0, depth),
                !tt_cutoff(t0, pos0, depth),
                moves@.to_multiset() == moves_of(pos0).to_multiset(),
                forall|k: int| 0 <= k < moves@.len() ==> moves_of(pos0).contains(#[trigger] moves@[k]),
                MINIMUM_EVAL <= a,
                alpha <= a,
                beta >= MINIMUM_EVAL,
                best_move == 0 || moves_of(pos0).contains(best_move),
                depth >= 1,
                search_extensions <= MAX_EXTENSIONS,
            decreases moves@.len() - i,
        {
            let mv = moves[i];
            board_apply(board, mv);
            let ghost pos1 = board_pos(*board);
            let eval: (u16, i32);
            if (is_capture_exec(mv) || board_in_check(board)) && search_extensions
                < MAX_EXTENSIONS {
                eval = minimax(engine, board, depth, a, beta, search_extensions + 1);
            } else {
                if depth > 3 {
                    eval = minimax(engine, board, depth - 1, a, beta, search_extensions);
                } else {
                    if futile(board, depth, a) {
                        proof {
                            lemma_eval_bounds(pos1);
                        }
                        eval = (mv, a - 2);
                    } else {
                        eval = minimax(engine, board, depth - 1, a, beta, search_extensions);
                    }
                }
            }
            proof {
                assert(board_rep(*board) == apply_of(rep0, mv));
                assert(exists|s: Seq<u64>, m: u16| board_rep(*board) == apply_of(s, m));
            }
            board_undo(board);
            proof {
                assert(board_rep(*board) == rep0);
            }
            if eval.0 == 0 && eval.1 == -1 {
                return (0, -1);
            }
            if a < eval.1 {
                a = eval.1;
                best_move = mv;
            }
            if beta <= a {
                cutoff = true;
            }
            i = i + 1;
        }
        engine.transposition_store(board, a, best_move, depth);
        return (best_move, a);
    } else {
        let mut b = beta;
        let mut i: usize = 0;
        let mut cutoff = false;
        while i < moves.len() && !cutoff
            invariant
                i <= moves@.len(),
                engine.wf(),
                same_config(*old(engine), *engine),
                board_rep(*board) == rep0,
                rep0 == board_rep(*old(board)),
                pos0 == board_pos(*old(board)),
                pos0 == pos_of(rep0),
                t0 == old(engine).transposition_table@,
                !search_leaf(pos0, depth),
                !tt_cutoff(t0, pos0, depth),
                moves@.to_multiset() == moves_of(pos0).to_multiset(),
                forall|k: int| 0 <= k < moves@.len() ==> moves_of(pos0).contains(#[trigger] moves@[k]),
                MINIMUM_EVAL <= b,
                b <= beta,
                alpha >= MINIMUM_EVAL,
                best_move == 0 || moves_of(pos0).contains(best_move),
                depth >= 1,
                search_extensions <= MAX_EXTENSIONS,
            decreases moves@.len() - i,
        {
            let mv = moves[i];
            board_apply(board, mv);
            let ghost pos1 = board_pos(*board);
            let eval: (u16, i32);
            if (is_capture_exec(mv) || board_in_check(board)) && search_extensions
                < MAX_EXTENSIONS {
                eval = minimax(engine, board, depth, alpha, b, search_extensions + 1);
            } else {
                if depth > 3 {
                    eval = minimax(engine, board, depth - 1, alpha, b, search_extensions);
                } else {
                    if futile(board, depth, -b) {
                        proof {
                            lemma_eval_bounds(pos1);
                        }
                        eval = (mv, b + 2);
                    } else {
                        eval = minimax(engine, board, depth - 1, alpha, b, search_extensions);
                    }
                }
            }
            proof {
                assert(board_rep(*board) == apply_of(rep0, mv));
                assert(exists|s: Seq<u64>, m: u16| board_rep(*board) == apply_of(s, m));
            }
            board_undo(board);
            proof {
                assert(board_rep(*board) == rep0);
            }
            if eval.0 == 0 && eval.1 == -1 {
                return (0, -1);
            }
            if eval.1 < b {
                b = eval.1;
                best_move = mv;
            }
            if b <= alpha {
                cutoff = true;
            }
            i = i + 1;
        }
        engine.transposition_store(board, b, best_move, depth);
        return (best_move, b);
    }
}

/// One progress report of the driver: the depth that was just searched,
/// the elapsed time and node count, the score from the mover's side, and
/// the move currently held best.
pub struct InfoLine {
    pub depth: u8,
    pub time_ms: u128,
    pub nodes: u128,
    pub score_cp: i32,
    pub pv: u16,
}

/// What one search command produced: the progress reports in depth
/// order, and the move and raw score finally chosen.
pub struct SearchReport {
    pub infos: Vec<InfoLine>,
    pub best_move: u16,
    pub best_score: i32,
}

/// The side-to-move sign a score is reported with.
pub open spec fn perspective_of(pos: Seq<u64>) -> int {
    if white_to_move_of(pos) {
        1
    } else {
        -1
    }
}

/// The iterative-deepening driver. It searches the engine's position at
/// depths 1, 2, 3, ... on a working clone, so the engine's own board is
/// untouched. Every reported move is a generated move of the root
/// position or the null move, and the null move is all that can be
/// reported of a position with no moves; a progress line is kept only
/// for an iteration that completed within the budget, carries the depth
/// it searched, and the last one names exactly the chosen move and the
/// chosen score from the mover's side.
pub fn search(engine: &mut Engine) -> (r: SearchReport)
    requires
        old(engine).wf(),
    ensures
        final(engine).wf(),
        final(engine).board == old(engine).board,
        final(engine).movetime == old(engine).movetime,
        final(engine).wtime == old(engine).wtime,
        final(engine).btime == old(engine).btime,
        final(engine).depth == old(engine).depth,
        final(engine).active == old(engine).active,
        final(engine).search_stopped == old(engine).search_stopped,
        r.best_move == 0 || moves_of(board_pos(old(engine).board)).contains(r.best_move),
        moves_of(board_pos(old(engine).board)).len() == 0 ==> r.best_move == 0,
        r.infos@.len() > 0 ==> r.best_move == r.infos@.last().pv,
        r.infos@.len() > 0 ==> r.infos@.last().score_cp as int == r.best_score as int
            * perspective_of(board_pos(old(engine).board)),
        r.infos@.len() == 0 ==> r.best_move == 0 && r.best_score == 0,
        forall|k: int| 0 <= k < r.infos@.len() ==> (#[trigger] r.infos@[k]).depth == k + 1,
        forall|k: int|
            0 <= k < r.infos@.len() ==> (#[trigger] r.infos@[k]).pv == 0 || moves_of(
                board_pos(old(engine).board),
            ).contains(r.infos@[k].pv),
{
    let ghost pos0 = board_pos(old(engine).board);
    let mut shallow_board = clone_board(&engine.board);
    let ghost rep_c = board_rep(shallow_board);
    let mut depth: u8 = 0;
    let mut best: (u16, i32) = (0, 0);
    engine.instant = time_now();
    let perspective: i32 = if board_white_to_move(&engine.board) {
        1
    } else {
        -1
    };
    let mut infos: Vec<InfoLine> = Vec::new();
    let mut expired = false;
    loop
        invariant
            engine.wf(),
            engine.board == old(engine).board,
            engine.movetime == old(engine).movetime,
            engine.wtime == old(engine).wtime,
            engine.btime == old(engine).btime,
            engine.depth == old(engine).depth,
            engine.active == old(engine).active,
            engine.search_stopped == old(engine).search_stopped,
            board_rep(shallow_board) == rep_c,
            pos_of(rep_c) == pos0,
            pos0 == board_pos(old(engine).board),
            depth <= engine.depth,
            perspective as int == perspective_of(pos0),
            best.0 == 0 || moves_of(pos0).contains(best.0),
            moves_of(pos0).len() == 0 ==> best.0 == 0,
            best.1 >= MINIMUM_EVAL,
            !expired ==> infos@.len() == depth,
            expired ==> infos@.len() == depth - 1,
            infos@.len() > 0 ==> best.0 == infos@.last().pv,
            infos@.len() > 0 ==> infos@.last().score_cp as int == best.1 as int * (
            perspective as int),
            infos@.len() == 0 ==> best.0 == 0 && best.1 == 0,
            forall|k: int| 0 <= k < infos@.len() ==> (#[trigger] infos@[k]).depth == k + 1,
            forall|k: int|
                0 <= k < infos@.len() ==> (#[trigger] infos@[k]).pv == 0 || moves_of(
                    pos0,
                ).contains(infos@[k].pv),
        decreases engine.depth - depth,
    {
        if expired {
            break ;
        }
        if engine.out_of_time() {
            break ;
        }
        if depth >= engine.depth {
            break ;
        }
        let past_best = best;
        depth = depth + 1;
        let result = minimax(
            engine,
            &mut shallow_board,
            depth,
            MINIMUM_EVAL,
            MAXIMUM_EVAL,
            MAX_EXTENSIONS,
        );
        best = result;
        if engine.out_of_time() {
            // the budget ran out during this iteration: its result is
            // discarded and no progress line reports it
            best = past_best;
            expired = true;
        } else {
            let d = time_elapsed(&engine.instant);
            let ms = duration_millis(&d);
            proof {
                if perspective == 1 {
                    assert(best.1 * perspective == best.1);
                } else {
                    assert(best.1 * perspective == -best.1);
                }
            }
            infos.push(
                InfoLine {
                    depth,
                    time_ms: ms,
                    nodes: engine.nodes,
                    score_cp: best.1 * perspective,
                    pv: best.0,
                },
            );
        }
    }
    SearchReport { infos, best_move: best.0, best_score: best.1 }
}

} // verus!
