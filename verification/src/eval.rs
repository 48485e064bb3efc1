//! The position evaluator: material plus piece-square bonuses chosen by
//! game stage, with terminal scores for checkmate and stalemate.
use vstd::prelude::*;
use crate::board::{board_pos, piece_code_of, checkmate_of, stalemate_of, white_to_move_of,
    piece_count_of, moves_played_of, board_checkmate, board_stalemate, board_white_to_move,
    board_piece_count, board_moves_played, board_piece_code};

verus! {

/// Centipawn value of a piece kind: pawn 100, knight 320, bishop 330,
/// rook 500, queen 900; the king and everything else 0.
pub open spec fn piece_value(kind: int) -> int {
    if kind == 1 {
        100
    } else if kind == 2 {
        320
    } else if kind == 3 {
        330
    } else if kind == 4 {
        500
    } else if kind == 5 {
        900
    } else {
        0
    }
}

/// The middlegame pawn table, from the eighth rank down.
pub open spec fn mg_pawn_table() -> Seq<i32> {
    seq![
        0i32, 0i32, 0i32, 0i32, 0i32, 0i32, 0i32, 0i32,
        50i32, 50i32, 50i32, 50i32, 50i32, 50i32, 50i32, 50i32,
        10i32, 10i32, 20i32, 30i32, 30i32, 20i32, 10i32, 10i32,
        5i32, 5i32, 10i32, 25i32, 25i32, 10i32, 5i32, 5i32,
        0i32, 0i32, 0i32, 20i32, 20i32, 0i32, 0i32, 0i32,
        5i32, -5i32, -10i32, 0i32, 0i32, -10i32, -5i32, 5i32,
        5i32, 10i32, 10i32, -20i32, -20i32, 10i32, 10i32, 5i32,
        0i32, 0i32, 0i32, 0i32, 0i32, 0i32, 0i32, 0i32,
    ]
}

fn mg_pawn_lookup(sq: u8) -> (r: i32)
    requires
        sq < 64,
    ensures
        r as int == mg_pawn_table()[sq as int],
        -80 <= r <= 80,
{
    let t: [i32; 64] = [
        0, 0, 0, 0, 0, 0, 0, 0,
        50, 50, 50, 50, 50, 50, 50, 50,
        10, 10, 20, 30, 30, 20, 10, 10,
        5, 5, 10, 25, 25, 10, 5, 5,
        0, 0, 0, 20, 20, 0, 0, 0,
        5, -5, -10, 0, 0, -10, -5, 5,
        5, 10, 10, -20, -20, 10, 10, 5,
        0, 0, 0, 0, 0, 0, 0, 0,
    ];
    proof {
        assert(t@ =~= mg_pawn_table());
    }
    t[sq as usize]
}

/// The endgame pawn table.
pub open spec fn eg_pawn_table() -> Seq<i32> {
    seq![
        0i32, 0i32, 0i32, 0i32, 0i32, 0i32, 0i32, 0i32,
        80i32, 80i32, 80i32, 80i32, 80i32, 80i32, 80i32, 80i32,
        50i32, 50i32, 50i32, 50i32, 50i32, 50i32, 50i32, 50i32,
        30i32, 30i32, 30i32, 30i32, 30i32, 30i32, 30i32, 30i32,
        10i32, 10i32, 10i32, 10i32, 10i32, 10i32, 10i32, 10i32,
        10i32, 10i32, 10i32, 10i32, 10i32, 10i32, 10i32, 10i32,
        -5i32, -5i32, -5i32, -5i32, -5i32, -5i32, -5i32, -5i32,
        0i32, 0i32, 0i32, 0i32, 0i32, 0i32, 0i32, 0i32,
    ]
}

fn eg_pawn_lookup(sq: u8) -> (r: i32)
    requires
        sq < 64,
    ensures
        r as int == eg_pawn_table()[sq as int],
        -80 <= r <= 80,
{
    let t: [i32; 64] = [
        0, 0, 0, 0, 0, 0, 0, 0,
        80, 80, 80, 80, 80, 80, 80, 80,
        50, 50, 50, 50, 50, 50, 50, 50,
        30, 30, 30, 30, 30, 30, 30, 30,
        10, 10, 10, 10, 10, 10, 10, 10,
        10, 10, 10, 10, 10, 10, 10, 10,
        -5, -5, -5, -5, -5, -5, -5, -5,
        0, 0, 0, 0, 0, 0, 0, 0,
    ];
    proof {
        assert(t@ =~= eg_pawn_table());
    }
    t[sq as usize]
}

/// The knight table, used in both stages.
pub open spec fn knight_table() -> Seq<i32> {
    seq![
        -50i32, -40i32, -30i32, -30i32, -30i32, -30i32, -40i32, -50i32,
        -40i32, -20i32, 0i32, 0i32, 0i32, 0i32, -20i32, -40i32,
        -30i32, 0i32, 10i32, 15i32, 15i32, 10i32, 0i32, -30i32,
        -30i32, 5i32, 15i32, 20i32, 20i32, 15i32, 5i32, -30i32,
        -30i32, 0i32, 15i32, 20i32, 20i32, 15i32, 0i32, -30i32,
        -30i32, 5i32, 10i32, 15i32, 15i32, 10i32, 5i32, -30i32,
        -40i32, -20i32, 0i32, 5i32, 5i32, 0i32, -20i32, -40i32,
        -50i32, -40i32, -30i32, -30i32, -30i32, -30i32, -40i32, -50i32,
    ]
}

fn knight_lookup(sq: u8) -> (r: i32)
    requires
        sq < 64,
    ensures
        r as int == knight_table()[sq as int],
        -80 <= r <= 80,
{
    let t: [i32; 64] = [
        -50, -40, -30, -30, -30, -30, -40, -50,
        -40, -20, 0, 0, 0, 0, -20, -40,
        -30, 0, 10, 15, 15, 10, 0, -30,
        -30, 5, 15, 20, 20, 15, 5, -30,
        -30, 0, 15, 20, 20, 15, 0, -30,
        -30, 5, 10, 15, 15, 10, 5, -30,
        -40, -20, 0, 5, 5, 0, -20, -40,
        -50, -40, -30, -30, -30, -30, -40, -50,
    ];
    proof {
        assert(t@ =~= knight_table());
    }
    t[sq as usize]
}

/// The bishop table, used in both stages.
pub open spec fn bishop_table() -> Seq<i32> {
    seq![
        -20i32, -10i32, -10i32, -10i32, -10i32, -10i32, -10i32, -20i32,
        -10i32, 0i32, 0i32, 0i32, 0i32, 0i32, 0i32, -10i32,
        -10i32, 0i32, 5i32, 10i32, 10i32, 5i32, 0i32, -10i32,
        -10i32, 5i32, 5i32, 10i32, 10i32, 5i32, 5i32, -10i32,
        -10i32, 0i32, 10i32, 10i32, 10i32, 10i32, 0i32, -10i32,
        -10i32, 10i32, 10i32, 10i32, 10i32, 10i32, 10i32, -10i32,
        -10i32, 5i32, 0i32, 0i32, 0i32, 0i32, 5i32, -10i32,
        -20i32, -10i32, -10i32, -10i32, -10i32, -10i32, -10i32, -20i32,
    ]
}

fn bishop_lookup(sq: u8) -> (r: i32)
    requires
        sq < 64,
    ensures
        r as int == bishop_table()[sq as int],
        -80 <= r <= 80,
{
    let t: [i32; 64] = [
        -20, -10, -10, -10, -10, -10, -10, -20,
        -10, 0, 0, 0, 0, 0, 0, -10,
        -10, 0, 5, 10, 10, 5, 0, -10,
        -10, 5, 5, 10, 10, 5, 5, -10,
        -10, 0, 10, 10, 10, 10, 0, -10,
        -10, 10, 10, 10, 10, 10, 10, -10,
        -10, 5, 0, 0, 0, 0, 5, -10,
        -20, -10, -10, -10, -10, -10, -10, -20,
    ];
    proof {
        assert(t@ =~= bishop_table());
    }
    t[sq as usize]
}

/// The rook table, used in both stages.
pub open spec fn rook_table() -> Seq<i32> {
    seq![
        0i32, 0i32, 0i32, 0i32, 0i32, 0i32, 0i32, 0i32,
        5i32, 10i32, 10i32, 10i32, 10i32, 10i32, 10i32, 5i32,
        -5i32, 0i32, 0i32, 0i32, 0i32, 0i32, 0i32, -5i32,
        -5i32, 0i32, 0i32, 0i32, 0i32, 0i32, 0i32, -5i32,
        -5i32, 0i32, 0i32, 0i32, 0i32, 0i32, 0i32, -5i32,
        -5i32, 0i32, 0i32, 0i32, 0i32, 0i32, 0i32, -5i32,
        -5i32, 0i32, 0i32, 0i32, 0i32, 0i32, 0i32, -5i32,
        0i32, 0i32, 0i32, 5i32, 5i32, 0i32, 0i32, 0i32,
    ]
}

fn rook_lookup(sq: u8) -> (r: i32)
    requires
        sq < 64,
    ensures
        r as int == rook_table()[sq as int],
        -80 <= r <= 80,
{
    let t: [i32; 64] = [
        0, 0, 0, 0, 0, 0, 0, 0,
        5, 10, 10, 10, 10, 10, 10, 5,
        -5, 0, 0, 0, 0, 0, 0, -5,
        -5, 0, 0, 0, 0, 0, 0, -5,
        -5, 0, 0, 0, 0, 0, 0, -5,
        -5, 0, 0, 0, 0, 0, 0, -5,
        -5, 0, 0, 0, 0, 0, 0, -5,
        0, 0, 0, 5, 5, 0, 0, 0,
    ];
    proof {
        assert(t@ =~= rook_table());
    }
    t[sq as usize]
}

/// The queen table, used in both stages.
pub open spec fn queen_table() -> Seq<i32> {
    seq![
        -20i32, -10i32, -10i32, -5i32, -5i32, -10i32, -10i32, -20i32,
        -10i32, 0i32, 0i32, 0i32, 0i32, 0i32, 0i32, -10i32,
        0i32, 0i32, 5i32, -5i32, -5i32, 5i32, 0i32, 0i32,
        -5i32, 0i32, -5i32, 5i32, 5i32, -5i32, 0i32, -5i32,
        -5i32, 0i32, -5i32, 5i32, 5i32, -5i32, 0i32, -5i32,
        -10i32, 5i32, 5i32, -5i32, -5i32, 5i32, 5i32, -10i32,
        -10i32, 0i32, 5i32, 0i32, 0i32, 5i32, 0i32, -10i32,
        -20i32, -10i32, -10i32, -5i32, -5i32, -10i32, -10i32, -20i32,
    ]
}

fn queen_lookup(sq: u8) -> (r: i32)
    requires
        sq < 64,
    ensures
        r as int == queen_table()[sq as int],
        -80 <= r <= 80,
{
    let t: [i32; 64] = [
        -20, -10, -10, -5, -5, -10, -10, -20,
        -10, 0, 0, 0, 0, 0, 0, -10,
        0, 0, 5, -5, -5, 5, 0, 0,
        -5, 0, -5, 5, 5, -5, 0, -5,
        -5, 0, -5, 5, 5, -5, 0, -5,
        -10, 5, 5, -5, -5, 5, 5, -10,
        -10, 0, 5, 0, 0, 5, 0, -10,
        -20, -10, -10, -5, -5, -10, -10, -20,
    ];
    proof {
        assert(t@ =~= queen_table());
    }
    t[sq as usize]
}

/// The middlegame king table.
pub open spec fn mg_king_table() -> Seq<i32> {
    seq![
        -30i32, -40i32, -40i32, -50i32, -50i32, -40i32, -40i32, -30i32,
        -30i32, -40i32, -40i32, -50i32, -50i32, -40i32, -40i32, -30i32,
        -30i32, -40i32, -40i32, -50i32, -50i32, -40i32, -40i32, -30i32,
        -30i32, -40i32, -40i32, -50i32, -50i32, -40i32, -40i32, -30i32,
        -20i32, -30i32, -30i32, -40i32, -40i32, -30i32, -30i32, -20i32,
        -10i32, -20i32, -20i32, -20i32, -20i32, -20i32, -20i32, -10i32,
        20i32, 20i32, 0i32, 0i32, 0i32, 0i32, 20i32, 20i32,
        20i32, 30i32, 10i32, 0i32, 0i32, 10i32, 30i32, 20i32,
    ]
}

fn mg_king_lookup(sq: u8) -> (r: i32)
    requires
        sq < 64,
    ensures
        r as int == mg_king_table()[sq as int],
        -80 <= r <= 80,
{
    let t: [i32; 64] = [
        -30, -40, -40, -50, -50, -40, -40, -30,
        -30, -40, -40, -50, -50, -40, -40, -30,
        -30, -40, -40, -50, -50, -40, -40, -30,
        -30, -40, -40, -50, -50, -40, -40, -30,
        -20, -30, -30, -40, -40, -30, -30, -20,
        -10, -20, -20, -20, -20, -20, -20, -10,
        20, 20, 0, 0, 0, 0, 20, 20,
        20, 30, 10, 0, 0, 10, 30, 20,
    ];
    proof {
        assert(t@ =~= mg_king_table());
    }
    t[sq as usize]
}

/// The endgame king table.
pub open spec fn eg_king_table() -> Seq<i32> {
    seq![
        -50i32, -40i32, -30i32, -20i32, -20i32, -30i32, -40i32, -50i32,
        -30i32, -20i32, -10i32, 0i32, 0i32, -10i32, -20i32, -30i32,
        -30i32, -10i32, 20i32, 30i32, 30i32, 20i32, -10i32, -30i32,
        -30i32, -10i32, 30i32, 40i32, 40i32, 30i32, -10i32, -30i32,
        -30i32, -10i32, 30i32, 40i32, 40i32, 30i32, -10i32, -30i32,
        -30i32, -10i32, 20i32, 30i32, 30i32, 20i32, -10i32, -30i32,
        -30i32, -30i32, 0i32, 0i32, 0i32, 0i32, -30i32, -30i32,
        -50i32, -30i32, -30i32, -30i32, -30i32, -30i32, -30i32, -50i32,
    ]
}

fn eg_king_lookup(sq: u8) -> (r: i32)
    requires
        sq < 64,
    ensures
        r as int == eg_king_table()[sq as int],
        -80 <= r <= 80,
{
    let t: [i32; 64] = [
        -50, -40, -30, -20, -20, -30, -40, -50,
        -30, -20, -10, 0, 0, -10, -20, -30,
        -30, -10, 20, 30, 30, 20, -10, -30,
        -30, -10, 30, 40, 40, 30, -10, -30,
        -30, -10, 30, 40, 40, 30, -10, -30,
        -30, -10, 20, 30, 30, 20, -10, -30,
        -30, -30, 0, 0, 0, 0, -30, -30,
        -50, -30, -30, -30, -30, -30, -30, -50,
    ];
    proof {
        assert(t@ =~= eg_king_table());
    }
    t[sq as usize]
}

/// The piece-square bonus of a piece kind on a square: pawn and king
/// bonuses depend on the game stage, the rest use one table.
pub open spec fn table_bonus(stage: int, kind: int, sq: int) -> int {
    if kind == 1 {
        if stage == 1 {
            eg_pawn_table()[sq] as int
        } else {
            mg_pawn_table()[sq] as int
        }
    } else if kind == 2 {
        knight_table()[sq] as int
    } else if kind == 3 {
        bishop_table()[sq] as int
    } else if kind == 4 {
        rook_table()[sq] as int
    } else if kind == 5 {
        queen_table()[sq] as int
    } else if kind == 6 {
        if stage == 1 {
            eg_king_table()[sq] as int
        } else {
            mg_king_table()[sq] as int
        }
    } else {
        0
    }
}

fn table_bonus_exec(stage: u8, kind: u8, sq: u8) -> (r: i32)
    requires
        sq < 64,
    ensures
        r as int == table_bonus(stage as int, kind as int, sq as int),
        -80 <= r <= 80,
{
    if kind == 1 {
        if stage == 1 {
            eg_pawn_lookup(sq)
        } else {
            mg_pawn_lookup(sq)
        }
    } else if kind == 2 {
        knight_lookup(sq)
    } else if kind == 3 {
        bishop_lookup(sq)
    } else if kind == 4 {
        rook_lookup(sq)
    } else if kind == 5 {
        queen_lookup(sq)
    } else if kind == 6 {
        if stage == 1 {
            eg_king_lookup(sq)
        } else {
            mg_king_lookup(sq)
        }
    } else {
        0
    }
}

fn piece_value_exec(kind: u8) -> (r: i32)
    ensures
        r as int == piece_value(kind as int),
        0 <= r <= 900,
{
    if kind == 1 {
        100
    } else if kind == 2 {
        320
    } else if kind == 3 {
        330
    } else if kind == 4 {
        500
    } else if kind == 5 {
        900
    } else {
        0
    }
}

/// The game stage: 1 (endgame) when fewer than 14 pieces remain, else 0.
pub open spec fn stage_of(piece_count: int) -> int {
    if piece_count < 14 {
        1
    } else {
        0
    }
}

/// The signed contribution of one square: a white piece adds its value
/// and its bonus on the mirrored square, a black piece subtracts its
/// value and its bonus on the square itself.
pub open spec fn square_score(codes: Seq<u8>, stage: int, sq: int) -> int {
    let code = codes[sq] as int;
    if code == 0 {
        0
    } else if code >= 9 {
        -piece_value(code - 8) - table_bonus(stage, code - 8, sq)
    } else {
        piece_value(code) + table_bonus(stage, code, 63 - sq)
    }
}

/// The sum of the square contributions below square `n`.
pub open spec fn placement_sum(codes: Seq<u8>, stage: int, n: int) -> int
    decreases n,
{
    if n <= 0 {
        0
    } else {
        placement_sum(codes, stage, n - 1) + square_score(codes, stage, n - 1)
    }
}

/// The evaluation as a function of the plain facts it reads: checkmate
/// and stalemate shortcuts first, else the placement sum at the stage
/// the piece count selects.
pub open spec fn eval_of(
    codes: Seq<u8>,
    white_to_move: bool,
    is_checkmate: bool,
    is_stalemate: bool,
    piece_count: int,
    played: int,
) -> int {
    if is_checkmate {
        if white_to_move {
            -9999999 + played
        } else {
            9999999 - played
        }
    } else if is_stalemate {
        0
    } else {
        placement_sum(codes, stage_of(piece_count), 64)
    }
}

/// The piece codes of the 64 squares of a position.
pub open spec fn codes_of(pos: Seq<u64>) -> Seq<u8> {
    Seq::new(64, |i: int| piece_code_of(pos, i))
}

/// The evaluation of a position, in centipawns from White's side.
pub open spec fn eval_spec(pos: Seq<u64>) -> int {
    eval_of(
        codes_of(pos),
        white_to_move_of(pos),
        checkmate_of(pos),
        stalemate_of(pos),
        piece_count_of(pos) as int,
        moves_played_of(pos) as int,
    )
}

proof fn lemma_square_score_bound(codes: Seq<u8>, stage: int, sq: int)
    requires
        0 <= sq < 64,
    ensures
        -980 <= square_score(codes, stage, sq) <= 980,
{
}

proof fn lemma_placement_sum_bound(codes: Seq<u8>, stage: int, n: int)
    requires
        0 <= n <= 64,
    ensures
        -980 * n <= placement_sum(codes, stage, n) <= 980 * n,
    decreases n,
{
    if n > 0 {
        lemma_placement_sum_bound(codes, stage, n - 1);
        lemma_square_score_bound(codes, stage, n - 1);
    }
}

/// The evaluation stays strictly inside the ten-million band: mate
/// scores lie beyond nine million, placement sums far below it.
pub proof fn lemma_eval_bounds(pos: Seq<u64>)
    ensures
        -10_000_000 < eval_spec(pos) < 10_000_000,
{
    lemma_placement_sum_bound(codes_of(pos), stage_of(piece_count_of(pos) as int), 64);
}

/// Evaluates a position. The score is 0 on stalemate; on checkmate it is
/// a mate score beyond nine million, biased by the move count so that
/// faster mates score better; otherwise it is material plus placement,
/// which stays far inside the mate band.
pub fn evaluate(board: &pleco::Board) -> (r: i32)
    ensures
        r as int == eval_spec(board_pos(*board)),
        -10_000_000 < r < 10_000_000,
        checkmate_of(board_pos(*board)) && white_to_move_of(board_pos(*board)) ==> r
            <= -9_000_000,
        checkmate_of(board_pos(*board)) && !white_to_move_of(board_pos(*board)) ==> r
            >= 9_000_000,
        stalemate_of(board_pos(*board)) ==> r == 0,
{
    if board_checkmate(board) {
        let x: u16 = board_moves_played(board);
        if board_white_to_move(board) {
            -9999999 + x as i32
        } else {
            9999999 - x as i32
        }
    } else if board_stalemate(board) {
        0
    } else {
        let ghost rep = board_pos(*board);
        let stage: u8 = if board_piece_count(board) < 14 {
            1
        } else {
            0
        };
        let mut eval: i32 = 0;
        let mut sq: u8 = 0;
        while sq < 64
            invariant
                sq <= 64,
                stage as int == stage_of(piece_count_of(rep) as int),
                rep == board_pos(*board),
                eval as int == placement_sum(codes_of(rep), stage as int, sq as int),
                -980 * sq <= eval as int <= 980 * sq,
            decreases 64 - sq,
        {
            let code = board_piece_code(board, sq);
            if code != 0 {
                let kind: u8 = code % 8;
                let value = piece_value_exec(kind);
                let bonus = if code >= 9 {
                    table_bonus_exec(stage, kind, sq)
                } else {
                    table_bonus_exec(stage, kind, 63 - sq)
                };
                proof {
                    assert(codes_of(rep)[sq as int] == code);
                }
                if code >= 9 {
                    eval = eval - value - bonus;
                } else {
                    eval = eval + value + bonus;
                }
            }
            sq = sq + 1;
            proof {
                lemma_placement_sum_bound(codes_of(rep), stage as int, sq as int);
            }
        }
        eval
    }
}

/// The evaluation is a pure function of piece placement, side to move,
/// the terminal flags and the counters: positions that agree on those
/// facts evaluate alike.
pub proof fn lemma_evaluate_pure(rep1: Seq<u64>, rep2: Seq<u64>)
    requires
        codes_of(rep1) == codes_of(rep2),
        white_to_move_of(rep1) == white_to_move_of(rep2),
        checkmate_of(rep1) == checkmate_of(rep2),
        stalemate_of(rep1) == stalemate_of(rep2),
        piece_count_of(rep1) == piece_count_of(rep2),
        moves_played_of(rep1) == moves_played_of(rep2),
    ensures
        eval_spec(rep1) == eval_spec(rep2),
{
}

} // verus!
