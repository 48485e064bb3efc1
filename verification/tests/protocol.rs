use chess_engine::engine::Engine;
use chess_engine::uci::handle_command;

fn send(engine: &mut Engine, line: &str) -> Vec<String> {
    let bytes: Vec<u8> = line.as_bytes().to_vec();
    let out = handle_command(engine, &bytes);
    assert!(!out.abort, "command aborted: {}", line);
    out.lines.iter().map(|l| String::from_utf8(l.clone()).unwrap()).collect()
}

#[test]
fn uci_handshake() {
    let mut engine = Engine::new(1);
    let lines = send(&mut engine, "uci");
    assert_eq!(lines.len(), 5);
    assert!(lines[0].starts_with("id name"));
    assert!(lines[1].starts_with("id author"));
    assert_eq!(lines[2], "");
    assert_eq!(lines[3], "option name Hash type spin default 16 min 1 max 4096");
    assert_eq!(lines[4], "uciok");
}

#[test]
fn isready_readyok() {
    let mut engine = Engine::new(1);
    let lines = send(&mut engine, "isready");
    assert_eq!(lines, vec!["readyok".to_string()]);
}

#[test]
fn unknown_command_echoed() {
    let mut engine = Engine::new(1);
    let lines = send(&mut engine, "  flurble  ");
    assert_eq!(lines, vec!["Unknown command: flurble".to_string()]);
}

#[test]
fn startpos_go_depth_1_gives_legal_bestmove() {
    let mut engine = Engine::new(1);
    send(&mut engine, "position startpos");
    let lines = send(&mut engine, "go depth 1");
    let best = lines.last().unwrap();
    assert!(best.starts_with("bestmove "), "last line: {}", best);
    let mv = &best["bestmove ".len()..];
    let legal: Vec<String> =
        pleco::Board::start_pos().generate_moves().iter().map(|m| m.stringify()).collect();
    assert_eq!(legal.len(), 20);
    assert!(legal.iter().any(|s| s == mv), "move {} not legal", mv);
    let bests: Vec<&String> = lines.iter().filter(|l| l.starts_with("bestmove")).collect();
    assert_eq!(bests.len(), 1);
}

#[test]
fn rook_endgame_scores_strongly_positive() {
    let mut engine = Engine::new(1);
    send(&mut engine, "position fen 8/8/8/8/8/8/6k1/4K2R w K - 0 1");
    let lines = send(&mut engine, "go depth 4");
    let best = lines.last().unwrap();
    assert!(best.starts_with("bestmove "));
    let mv = &best["bestmove ".len()..];
    let board = pleco::Board::from_fen("8/8/8/8/8/8/6k1/4K2R w K - 0 1").unwrap();
    let legal: Vec<String> = board.generate_moves().iter().map(|m| m.stringify()).collect();
    assert!(legal.iter().any(|s| s == mv), "move {} not legal", mv);
    let info = lines.iter().rev().find(|l| l.starts_with("info ")).unwrap();
    let score = info_score(info);
    assert!(score > 100, "score {} not strongly positive", score);
}

fn info_score(info: &str) -> i64 {
    let idx = info.find("score cp ").unwrap() + "score cp ".len();
    let rest = &info[idx..];
    let end = rest.find(' ').unwrap_or(rest.len());
    rest[..end].parse().unwrap()
}

#[test]
fn mate_in_one_is_found() {
    let mut engine = Engine::new(1);
    send(&mut engine, "position fen 7k/5Q2/6K1/8/8/8/8/8 w - - 0 1");
    let lines = send(&mut engine, "go depth 2");
    let best = lines.last().unwrap();
    assert!(
        best == "bestmove f7g7" || best == "bestmove f7f8",
        "bestmove was {}",
        best
    );
    let info = lines.iter().rev().find(|l| l.starts_with("info ")).unwrap();
    assert!(info_score(info) >= 9_000_000, "score in {}", info);
}

#[test]
fn movetime_search_with_resized_hash() {
    let mut engine = Engine::new(1);
    send(&mut engine, "position startpos moves e2e4 e7e5");
    send(&mut engine, "setoption name Hash value 32");
    assert_eq!(engine.hash_table_size_mb, 32);
    let lines = send(&mut engine, "go movetime 100");
    assert!(lines.last().unwrap().starts_with("bestmove "));
    let lines = send(&mut engine, "isready");
    assert_eq!(lines, vec!["readyok".to_string()]);
}

#[test]
fn go_leaves_the_board_unchanged() {
    let mut engine = Engine::new(1);
    send(&mut engine, "position startpos moves e2e4");
    let before = engine.board_handle().zobrist();
    send(&mut engine, "go depth 2");
    assert_eq!(engine.board_handle().zobrist(), before);
}

#[test]
fn quit_deactivates() {
    let mut engine = Engine::new(1);
    let bytes: Vec<u8> = b"quit".to_vec();
    let out = handle_command(&mut engine, &bytes);
    assert!(out.quit);
    assert!(!engine.active);
    assert!(out.lines.is_empty());
}

#[test]
fn setoption_wrong_shape_is_reported() {
    let mut engine = Engine::new(1);
    let lines = send(&mut engine, "setoption label Hash value 4");
    assert_eq!(
        lines,
        vec!["Unknown command: setoption label Hash value 4\n Maybe try setoption `name`?"
            .to_string()]
    );
    assert_eq!(engine.hash_table_size_mb, 1);
}

#[test]
fn bad_fen_falls_back_to_start_position() {
    let mut engine = Engine::new(1);
    send(&mut engine, "position fen not a real fen at all");
    assert_eq!(
        engine.board_handle().zobrist(),
        pleco::Board::start_pos().zobrist()
    );
}

#[test]
fn illegal_move_in_position_aborts() {
    let mut engine = Engine::new(1);
    let bytes: Vec<u8> = b"position startpos moves e2e5".to_vec();
    let out = handle_command(&mut engine, &bytes);
    assert!(out.abort);
}

#[test]
fn bestmove_equals_last_reported_pv() {
    let mut engine = Engine::new(1);
    send(&mut engine, "position startpos");
    let lines = send(&mut engine, "go depth 2");
    let best = lines.last().unwrap();
    let mv = &best["bestmove ".len()..];
    let last_info = lines.iter().rev().find(|l| l.starts_with("info ")).unwrap();
    let pv_idx = last_info.find(" pv ").unwrap() + " pv ".len();
    assert_eq!(&last_info[pv_idx..], mv);
}

#[test]
fn position_moves_really_change_the_board() {
    let mut engine = Engine::new(1);
    let start = engine.board_handle().zobrist();
    send(&mut engine, "position startpos moves e2e4");
    assert_ne!(engine.board_handle().zobrist(), start);
    send(&mut engine, "position startpos");
    assert_eq!(engine.board_handle().zobrist(), start);
}

#[test]
fn kingless_fen_falls_back_to_start_position() {
    let mut engine = Engine::new(1);
    send(&mut engine, "position fen 8/8/8/8/8/8/8/8 w - - 0 1");
    assert_eq!(
        engine.board_handle().zobrist(),
        pleco::Board::start_pos().zobrist()
    );
    let lines = send(&mut engine, "isready");
    assert_eq!(lines, vec!["readyok".to_string()]);
}

#[test]
fn zero_fullmove_fen_falls_back_to_start_position() {
    let mut engine = Engine::new(1);
    send(&mut engine, "position fen 7k/5Q2/6K1/8/8/8/8/8 w - - 0 0");
    assert_eq!(
        engine.board_handle().zobrist(),
        pleco::Board::start_pos().zobrist()
    );
}

#[test]
fn bad_castling_letter_falls_back_to_start_position() {
    let mut engine = Engine::new(1);
    send(&mut engine, "position fen 7k/5Q2/6K1/8/8/8/8/8 w x - 0 1");
    assert_eq!(
        engine.board_handle().zobrist(),
        pleco::Board::start_pos().zobrist()
    );
}

#[test]
fn setoption_bad_value_is_reported() {
    let mut engine = Engine::new(1);
    let lines = send(&mut engine, "setoption name Hash value many");
    assert_eq!(
        lines,
        vec!["Unknown command: setoption name Hash value many".to_string()]
    );
    assert_eq!(engine.hash_table_size_mb, 1);
}

#[test]
fn movetime_zero_is_a_zero_budget() {
    let mut engine = Engine::new(1);
    send(&mut engine, "position startpos");
    let lines = send(&mut engine, "go movetime 0");
    assert!(lines.last().unwrap().starts_with("bestmove "));
    let lines = send(&mut engine, "isready");
    assert_eq!(lines, vec!["readyok".to_string()]);
}
