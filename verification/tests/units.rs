use chess_engine::engine::{isqrt_u32, resolve_budget, Engine, TranspositionObject,
    MAX_EXTENSIONS, MAXIMUM_EVAL, MINIMUM_EVAL};
use chess_engine::search::minimax;
use chess_engine::eval::evaluate;
use chess_engine::ordering::gen_and_order_moves;
use chess_engine::text::{move_text, parse_uint};

#[test]
fn isqrt_exact_values() {
    assert_eq!(isqrt_u32(0), 0);
    assert_eq!(isqrt_u32(1), 1);
    assert_eq!(isqrt_u32(99), 9);
    assert_eq!(isqrt_u32(100), 10);
    assert_eq!(isqrt_u32(u32::MAX), 65535);
}

#[test]
fn budget_resolution_order() {
    assert_eq!(resolve_budget(500, true, 10000, 10000, true, true), 500);
    assert_eq!(resolve_budget(0, true, 10000, 10000, true, true), 0);
    assert_eq!(resolve_budget(0, false, 10000, 0, true, true), 1000);
    assert_eq!(resolve_budget(0, false, 0, 2500, true, false), 500);
    assert_eq!(resolve_budget(0, false, 0, 0, true, true), 0);
    assert_eq!(resolve_budget(0, false, 0, 0, false, true), 8000);
}

#[test]
fn parse_uint_matches_std_parse() {
    let cases = ["123", "+7", "0", "abc", "", "-3", "4294967295", "99999999999999", "12x"];
    for c in cases {
        let token: Vec<u8> = c.as_bytes().to_vec();
        let expected: u32 = c.parse().unwrap_or_default();
        assert_eq!(parse_uint(&token, u32::MAX), expected, "token {:?}", c);
    }
    let token: Vec<u8> = b"300".to_vec();
    assert_eq!(parse_uint(&token, 255), 0);
}

#[test]
fn move_text_matches_the_library_rendering() {
    let fens = [
        "rnbqkbnr/pppppppp/8/8/8/8/PPPPPPPP/RNBQKBNR w KQkq - 0 1",
        "r3k2r/pppppppp/8/8/8/8/PPPPPP2/R3K2R w KQkq - 0 1",
        "4k3/PPP5/8/8/8/8/8/4K3 w - - 0 1",
        "8/8/8/3pP3/8/8/8/k3K3 w - d6 0 1",
    ];
    for fen in fens {
        let board = pleco::Board::from_fen(fen).unwrap();
        for m in board.generate_moves().iter() {
            let text = move_text(m.get_raw());
            assert_eq!(
                String::from_utf8(text).unwrap(),
                m.stringify(),
                "encoding {:#x}",
                m.get_raw()
            );
        }
    }
}

#[test]
fn evaluate_is_zero_on_the_symmetric_start_position() {
    let board = pleco::Board::start_pos();
    assert_eq!(evaluate(&board), 0);
}

#[test]
fn evaluate_bare_rook_endgame_exact_value() {
    let board = pleco::Board::from_fen("4k3/8/8/8/8/8/8/4K2R w K - 0 1").unwrap();
    assert_eq!(evaluate(&board), 500);
}

#[test]
fn evaluate_is_pure() {
    let a = pleco::Board::from_fen("8/8/8/8/8/8/6k1/4K2R w K - 0 1").unwrap();
    let b = pleco::Board::from_fen("8/8/8/8/8/8/6k1/4K2R w K - 0 1").unwrap();
    assert_eq!(evaluate(&a), evaluate(&b));
    assert_eq!(evaluate(&a), evaluate(&a));
}

#[test]
fn evaluate_stalemate_is_zero() {
    let board = pleco::Board::from_fen("7k/5Q2/6K1/8/8/8/8/8 b - - 0 1").unwrap();
    assert!(board.stalemate());
    assert_eq!(evaluate(&board), 0);
}

#[test]
fn evaluate_checkmate_is_a_mate_score() {
    let board = pleco::Board::from_fen("7k/6Q1/6K1/8/8/8/8/8 b - - 0 1").unwrap();
    assert!(board.checkmate());
    assert!(evaluate(&board) >= 9_000_000);
    let white_mated = pleco::Board::from_fen("7K/6q1/6k1/8/8/8/8/8 w - - 0 1").unwrap();
    assert!(white_mated.checkmate());
    assert!(evaluate(&white_mated) <= -9_000_000);
}

#[test]
fn ordered_moves_are_a_permutation_with_captures_first() {
    let board =
        pleco::Board::from_fen("rnbqkbnr/ppp1pppp/8/3p4/4P3/8/PPPP1PPP/RNBQKBNR w KQkq - 0 2")
            .unwrap();
    let ordered = gen_and_order_moves(&board);
    let mut raw: Vec<u16> = board.generate_moves().iter().map(|m| m.get_raw()).collect();
    let mut sorted = ordered.clone();
    sorted.sort();
    raw.sort();
    assert_eq!(sorted, raw);
    // every capture must come before every non-capture, non-check move
    let keys: Vec<u8> = ordered
        .iter()
        .map(|&m| {
            if pleco::BitMove::new(m).is_capture() {
                6
            } else if board.gives_check(pleco::BitMove::new(m)) {
                5
            } else {
                0
            }
        })
        .collect();
    for w in keys.windows(2) {
        assert!(w[0] >= w[1], "keys out of order: {:?}", keys);
    }
}

#[test]
fn transposition_probe_returns_what_was_stored() {
    let mut engine = Engine::new(1);
    let board = pleco::Board::start_pos();
    engine.transposition_store(&board, 42, 7, 3);
    let found = engine.transposition_find(&board);
    assert_eq!(found.hash, board.zobrist());
    assert_eq!(found.score, 42);
    assert_eq!(found.depth, 3);
    assert_eq!(found.best_move, 7);
    let other = pleco::Board::from_fen("4k3/8/8/8/8/8/8/4K2R w K - 0 1").unwrap();
    let miss = engine.transposition_find(&other);
    assert_eq!(miss.best_move, 0);
    assert_eq!(miss.hash, 0);
    let vacant = TranspositionObject::new();
    assert_eq!(vacant.hash, 0);
}

#[test]
fn resize_clears_the_table() {
    let mut engine = Engine::new(1);
    let board = pleco::Board::start_pos();
    engine.transposition_store(&board, 42, 7, 3);
    engine.change_hash_size(2);
    let found = engine.transposition_find(&board);
    assert_eq!(found.best_move, 0);
    assert_eq!(found.score, 0);
    assert_eq!(engine.entries_filled, 0);
}

#[test]
fn minimax_restores_the_board_it_searches() {
    let mut engine = Engine::new(1);
    engine.movetime = 8000;
    let mut board = pleco::Board::start_pos();
    let before = board.zobrist();
    let (mv, score) = minimax(
        &mut engine,
        &mut board,
        2,
        MINIMUM_EVAL,
        MAXIMUM_EVAL,
        MAX_EXTENSIONS,
    );
    assert_eq!(board.zobrist(), before);
    assert!(score >= MINIMUM_EVAL);
    let legal: Vec<u16> = board.generate_moves().iter().map(|m| m.get_raw()).collect();
    assert!(mv == 0 || legal.contains(&mv));
}
