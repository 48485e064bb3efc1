//! The command handler of the line-oriented text protocol: it parses one
//! command line, updates the engine, and yields the reply lines.
use vstd::prelude::*;
use crate::board::{board_rep, board_pos, pos_of, fen_rep_of, moves_of, apply_of, start_fen,
    start_board, board_from_fen, board_moves, board_apply, board_white_to_move,
    white_to_move_of};
use crate::engine::Engine;
use crate::search::{search, InfoLine};
use crate::text::{move_text_spec, move_text, dec_text, push_u128_text, push_i32_text,
    parse_uint, parsed_uint, tokens_spec, tokenize, trim_spec, trim_bytes};

verus! {

/// The token `position`.
pub open spec fn lit_position() -> Seq<u8> {
    seq![112u8, 111u8, 115u8, 105u8, 116u8, 105u8, 111u8, 110u8]
}

fn is_position(t: &Vec<u8>) -> (r: bool)
    ensures
        r == (t@ == lit_position()),
{
    let r = t.len() == 8 && t[0] == 112 && t[1] == 111 && t[2] == 115 && t[3] == 105 && t[4] == 116 && t[5] == 105 && t[6] == 111 && t[7] == 110;
    proof {
        if r {
            assert(t@ =~= lit_position());
        }
    }
    r
}

/// The token `startpos`.
pub open spec fn lit_startpos() -> Seq<u8> {
    seq![115u8, 116u8, 97u8, 114u8, 116u8, 112u8, 111u8, 115u8]
}

fn is_startpos(t: &Vec<u8>) -> (r: bool)
    ensures
        r == (t@ == lit_startpos()),
{
    let r = t.len() == 8 && t[0] == 115 && t[1] == 116 && t[2] == 97 && t[3] == 114 && t[4] == 116 && t[5] == 112 && t[6] == 111 && t[7] == 115;
    proof {
        if r {
            assert(t@ =~= lit_startpos());
        }
    }
    r
}

/// The token `fen`.
pub open spec fn lit_fen() -> Seq<u8> {
    seq![102u8, 101u8, 110u8]
}

fn is_fen(t: &Vec<u8>) -> (r: bool)
    ensures
        r == (t@ == lit_fen()),
{
    let r = t.len() == 3 && t[0] == 102 && t[1] == 101 && t[2] == 110;
    proof {
        if r {
            assert(t@ =~= lit_fen());
        }
    }
    r
}

/// The token `moves`.
pub open spec fn lit_moves() -> Seq<u8> {
    seq![109u8, 111u8, 118u8, 101u8, 115u8]
}

fn is_moves(t: &Vec<u8>) -> (r: bool)
    ensures
        r == (t@ == lit_moves()),
{
    let r = t.len() == 5 && t[0] == 109 && t[1] == 111 && t[2] == 118 && t[3] == 101 && t[4] == 115;
    proof {
        if r {
            assert(t@ =~= lit_moves());
        }
    }
    r
}

/// The token `go`.
pub open spec fn lit_go() -> Seq<u8> {
    seq![103u8, 111u8]
}

fn is_go(t: &Vec<u8>) -> (r: bool)
    ensures
        r == (t@ == lit_go()),
{
    let r = t.len() == 2 && t[0] == 103 && t[1] == 111;
    proof {
        if r {
            assert(t@ =~= lit_go());
        }
    }
    r
}

/// The token `depth`.
pub open spec fn lit_depth() -> Seq<u8> {
    seq![100u8, 101u8, 112u8, 116u8, 104u8]
}

fn is_depth(t: &Vec<u8>) -> (r: bool)
    ensures
        r == (t@ == lit_depth()),
{
    let r = t.len() == 5 && t[0] == 100 && t[1] == 101 && t[2] == 112 && t[3] == 116 && t[4] == 104;
    proof {
        if r {
            assert(t@ =~= lit_depth());
        }
    }
    r
}

/// The token `wtime`.
pub open spec fn lit_wtime() -> Seq<u8> {
    seq![119u8, 116u8, 105u8, 109u8, 101u8]
}

fn is_wtime(t: &Vec<u8>) -> (r: bool)
    ensures
        r == (t@ == lit_wtime()),
{
    let r = t.len() == 5 && t[0] == 119 && t[1] == 116 && t[2] == 105 && t[3] == 109 && t[4] == 101;
    proof {
        if r {
            assert(t@ =~= lit_wtime());
        }
    }
    r
}

/// The token `btime`.
pub open spec fn lit_btime() -> Seq<u8> {
    seq![98u8, 116u8, 105u8, 109u8, 101u8]
}

fn is_btime(t: &Vec<u8>) -> (r: bool)
    ensures
        r == (t@ == lit_btime()),
{
    let r = t.len() == 5 && t[0] == 98 && t[1] == 116 && t[2] == 105 && t[3] == 109 && t[4] == 101;
    proof {
        if r {
            assert(t@ =~= lit_btime());
        }
    }
    r
}

/// The token `movetime`.
pub open spec fn lit_movetime() -> Seq<u8> {
    seq![109u8, 111u8, 118u8, 101u8, 116u8, 105u8, 109u8, 101u8]
}

fn is_movetime(t: &Vec<u8>) -> (r: bool)
    ensures
        r == (t@ == lit_movetime()),
{
    let r = t.len() == 8 && t[0] == 109 && t[1] == 111 && t[2] == 118 && t[3] == 101 && t[4] == 116 && t[5] == 105 && t[6] == 109 && t[7] == 101;
    proof {
        if r {
            assert(t@ =~= lit_movetime());
        }
    }
    r
}

/// The token `setoption`.
pub open spec fn lit_setoption() -> Seq<u8> {
    seq![115u8, 101u8, 116u8, 111u8, 112u8, 116u8, 105u8, 111u8, 110u8]
}

fn is_setoption(t: &Vec<u8>) -> (r: bool)
    ensures
        r == (t@ == lit_setoption()),
{
    let r = t.len() == 9 && t[0] == 115 && t[1] == 101 && t[2] == 116 && t[3] == 111 && t[4] == 112 && t[5] == 116 && t[6] == 105 && t[7] == 111 && t[8] == 110;
    proof {
        if r {
            assert(t@ =~= lit_setoption());
        }
    }
    r
}

/// The token `name`.
pub open spec fn lit_name() -> Seq<u8> {
    seq![110u8, 97u8, 109u8, 101u8]
}

fn is_name(t: &Vec<u8>) -> (r: bool)
    ensures
        r == (t@ == lit_name()),
{
    let r = t.len() == 4 && t[0] == 110 && t[1] == 97 && t[2] == 109 && t[3] == 101;
    proof {
        if r {
            assert(t@ =~= lit_name());
        }
    }
    r
}

/// The token `Hash`.
pub open spec fn lit_hash_opt() -> Seq<u8> {
    seq![72u8, 97u8, 115u8, 104u8]
}

fn is_hash_opt(t: &Vec<u8>) -> (r: bool)
    ensures
        r == (t@ == lit_hash_opt()),
{
    let r = t.len() == 4 && t[0] == 72 && t[1] == 97 && t[2] == 115 && t[3] == 104;
    proof {
        if r {
            assert(t@ =~= lit_hash_opt());
        }
    }
    r
}

/// The token `value`.
pub open spec fn lit_value() -> Seq<u8> {
    seq![118u8, 97u8, 108u8, 117u8, 101u8]
}

fn is_value(t: &Vec<u8>) -> (r: bool)
    ensures
        r == (t@ == lit_value()),
{
    let r = t.len() == 5 && t[0] == 118 && t[1] == 97 && t[2] == 108 && t[3] == 117 && t[4] == 101;
    proof {
        if r {
            assert(t@ =~= lit_value());
        }
    }
    r
}

/// The token `d`.
pub open spec fn lit_d_cmd() -> Seq<u8> {
    seq![100u8]
}

fn is_d_cmd(t: &Vec<u8>) -> (r: bool)
    ensures
        r == (t@ == lit_d_cmd()),
{
    let r = t.len() == 1 && t[0] == 100;
    proof {
        if r {
            assert(t@ =~= lit_d_cmd());
        }
    }
    r
}

/// The token `uci`.
pub open spec fn lit_uci() -> Seq<u8> {
    seq![117u8, 99u8, 105u8]
}

fn is_uci(t: &Vec<u8>) -> (r: bool)
    ensures
        r == (t@ == lit_uci()),
{
    let r = t.len() == 3 && t[0] == 117 && t[1] == 99 && t[2] == 105;
    proof {
        if r {
            assert(t@ =~= lit_uci());
        }
    }
    r
}

/// The token `isready`.
pub open spec fn lit_isready() -> Seq<u8> {
    seq![105u8, 115u8, 114u8, 101u8, 97u8, 100u8, 121u8]
}

fn is_isready(t: &Vec<u8>) -> (r: bool)
    ensures
        r == (t@ == lit_isready()),
{
    let r = t.len() == 7 && t[0] == 105 && t[1] == 115 && t[2] == 114 && t[3] == 101 && t[4] == 97 && t[5] == 100 && t[6] == 121;
    proof {
        if r {
            assert(t@ =~= lit_isready());
        }
    }
    r
}

/// The token `ucinewgame`.
pub open spec fn lit_ucinewgame() -> Seq<u8> {
    seq![117u8, 99u8, 105u8, 110u8, 101u8, 119u8, 103u8, 97u8, 109u8, 101u8]
}

fn is_ucinewgame(t: &Vec<u8>) -> (r: bool)
    ensures
        r == (t@ == lit_ucinewgame()),
{
    let r = t.len() == 10 && t[0] == 117 && t[1] == 99 && t[2] == 105 && t[3] == 110 && t[4] == 101 && t[5] == 119 && t[6] == 103 && t[7] == 97 && t[8] == 109 && t[9] == 101;
    proof {
        if r {
            assert(t@ =~= lit_ucinewgame());
        }
    }
    r
}

/// The token `stop`.
pub open spec fn lit_stop() -> Seq<u8> {
    seq![115u8, 116u8, 111u8, 112u8]
}

fn is_stop(t: &Vec<u8>) -> (r: bool)
    ensures
        r == (t@ == lit_stop()),
{
    let r = t.len() == 4 && t[0] == 115 && t[1] == 116 && t[2] == 111 && t[3] == 112;
    proof {
        if r {
            assert(t@ =~= lit_stop());
        }
    }
    r
}

/// The token `quit`.
pub open spec fn lit_quit() -> Seq<u8> {
    seq![113u8, 117u8, 105u8, 116u8]
}

fn is_quit(t: &Vec<u8>) -> (r: bool)
    ensures
        r == (t@ == lit_quit()),
{
    let r = t.len() == 4 && t[0] == 113 && t[1] == 117 && t[2] == 105 && t[3] == 116;
    proof {
        if r {
            assert(t@ =~= lit_quit());
        }
    }
    r
}

/// Appends a whole byte vector.
fn push_all(out: &mut Vec<u8>, s: &Vec<u8>)
    ensures
        final(out)@ == old(out)@ + s@,
{
    let mut i: usize = 0;
    while i < s.len()
        invariant
            i <= s@.len(),
            out@ == old(out)@ + s@.take(i as int),
        decreases s@.len() - i,
    {
        out.push(s[i]);
        proof {
            assert(old(out)@ + s@.take(i as int + 1) =~= (old(out)@ + s@.take(i as int)).push(
                s@[i as int],
            ));
        }
        i = i + 1;
    }
    proof {
        assert(s@.take(s@.len() as int) =~= s@);
    }
}

fn bytes_eq(a: &Vec<u8>, b: &Vec<u8>) -> (r: bool)
    ensures
        r == (a@ == b@),
{
    if a.len() != b.len() {
        return false;
    }
    let mut i: usize = 0;
    while i < a.len()
        invariant
            i <= a@.len(),
            a@.len() == b@.len(),
            forall|k: int| 0 <= k < i ==> a@[k] == b@[k],
        decreases a@.len() - i,
    {
        if a[i] != b[i] {
            return false;
        }
        i = i + 1;
    }
    proof {
        assert(a@ =~= b@);
    }
    true
}

/// The index of the first generated move, from position `k` on, whose
/// long-algebraic text is the given word; -1 when none matches.
pub open spec fn match_from(moves: Seq<u16>, w: Seq<u8>, k: int) -> int
    decreases moves.len() - k,
{
    if k < 0 || k >= moves.len() {
        -1
    } else if move_text_spec(moves[k]) == w {
        k
    } else {
        match_from(moves, w, k + 1)
    }
}

/// Whether a word names a generated move of the position.
pub open spec fn uci_word_ok(rep: Seq<u64>, w: Seq<u8>) -> bool {
    match_from(moves_of(pos_of(rep)), w, 0) >= 0
}

/// The position after playing the word: the first generated move whose
/// text matches is applied; a word that matches none leaves it alone.
pub open spec fn uci_apply_spec(rep: Seq<u64>, w: Seq<u8>) -> Seq<u64> {
    let k = match_from(moves_of(pos_of(rep)), w, 0);
    if k >= 0 {
        apply_of(rep, moves_of(pos_of(rep))[k])
    } else {
        rep
    }
}

/// Plays the move a word names, as the matcher of the text protocol
/// does: the first generated move with that text.
pub fn apply_uci_word(board: &mut pleco::Board, w: &Vec<u8>) -> (ok: bool)
    ensures
        ok == uci_word_ok(board_rep(*old(board)), w@),
        board_rep(*final(board)) == uci_apply_spec(board_rep(*old(board)), w@),
{
    let ghost rep = board_rep(*board);
    let moves = board_moves(board);
    let mut k: usize = 0;
    while k < moves.len()
        invariant
            k <= moves@.len(),
            moves@ == moves_of(pos_of(rep)),
            rep == board_rep(*board),
            rep == board_rep(*old(board)),
            match_from(moves@, w@, 0) == match_from(moves@, w@, k as int),
        decreases moves@.len() - k,
    {
        let mt = move_text(moves[k]);
        if bytes_eq(&mt, w) {
            proof {
                assert(match_from(moves@, w@, k as int) == k as int);
            }
            board_apply(board, moves[k]);
            return true;
        }
        proof {
            assert(match_from(moves@, w@, k as int) == match_from(moves@, w@, k as int + 1));
        }
        k = k + 1;
    }
    proof {
        assert(match_from(moves@, w@, moves@.len() as int) == -1);
    }
    false
}

/// The walk of a `position startpos [moves ...]` tail, as the handler
/// scans it: a literal `moves` word turns playing on; later words are
/// played in order; a word that names no move stops the walk and sets
/// the second component, on which the process must give up.
pub open spec fn startpos_walk(rep: Seq<u64>, words: Seq<Seq<u8>>, i: int, seen: bool) -> (
    Seq<u64>,
    bool,
)
    decreases words.len() - i,
{
    if i < 0 || i >= words.len() {
        (rep, false)
    } else if words[i] == lit_moves() {
        startpos_walk(rep, words, i + 1, true)
    } else if !seen {
        startpos_walk(rep, words, i + 1, false)
    } else if uci_word_ok(rep, words[i]) {
        startpos_walk(uci_apply_spec(rep, words[i]), words, i + 1, true)
    } else {
        (rep, true)
    }
}

/// The walk of the words after `moves` in a `position fen ...` line:
/// each word is played in order; one that names no move stops the walk
/// and sets the second component.
pub open spec fn walk_moves(rep: Seq<u64>, words: Seq<Seq<u8>>, i: int) -> (Seq<u64>, bool)
    decreases words.len() - i,
{
    if i < 0 || i >= words.len() {
        (rep, false)
    } else if uci_word_ok(rep, words[i]) {
        walk_moves(uci_apply_spec(rep, words[i]), words, i + 1)
    } else {
        (rep, true)
    }
}

/// The index of the first `moves` word, or -1.
pub open spec fn first_moves(words: Seq<Seq<u8>>, i: int) -> int
    decreases words.len() - i,
{
    if i < 0 || i >= words.len() {
        -1
    } else if words[i] == lit_moves() {
        i
    } else {
        first_moves(words, i + 1)
    }
}

/// The FEN text a `position fen ...` line carries: the words after the
/// first `fen` word up to the first `moves` word, each with a trailing
/// space, later `fen` words skipped.
pub open spec fn fen_collect(words: Seq<Seq<u8>>, i: int, collecting: bool) -> Seq<u8>
    decreases words.len() - i,
{
    if i < 0 || i >= words.len() {
        seq![]
    } else if words[i] == lit_fen() {
        fen_collect(words, i + 1, true)
    } else if words[i] == lit_moves() {
        seq![]
    } else if collecting {
        words[i] + seq![32u8] + fen_collect(words, i + 1, true)
    } else {
        fen_collect(words, i + 1, collecting)
    }
}

/// What the board holds after a `position` command, and whether a move
/// word failed: `startpos` starts from the initial position, `fen` from
/// the collected FEN text, and the words after `moves` are then played.
pub open spec fn position_outcome(toks: Seq<Seq<u8>>, line: Seq<u8>) -> (Seq<u64>, bool) {
    if toks.len() >= 2 && toks[1] == lit_startpos() {
        startpos_walk(fen_rep_of(start_fen()), toks, 1, false)
    } else {
        let collected = fen_collect(toks, 0, false);
        let base = if crate::fen::fen_ok_spec(collected) {
            fen_rep_of(collected)
        } else {
            fen_rep_of(start_fen())
        };
        let mi = first_moves(toks, 0);
        if mi >= 0 {
            walk_moves(base, toks, mi + 1)
        } else {
            (base, false)
        }
    }
}

/// The hint appended when `setoption` is not followed by `name`.
pub open spec fn hint_name() -> Seq<u8> {
    seq![10u8, 32u8, 77u8, 97u8, 121u8, 98u8, 101u8, 32u8, 116u8, 114u8, 121u8, 32u8, 115u8, 101u8, 116u8, 111u8, 112u8, 116u8, 105u8, 111u8, 110u8, 32u8, 96u8, 110u8, 97u8, 109u8, 101u8, 96u8, 63u8]
}

/// The hint appended when the option named is not `Hash`.
pub open spec fn hint_id() -> Seq<u8> {
    seq![10u8, 32u8, 77u8, 97u8, 121u8, 98u8, 101u8, 32u8, 116u8, 114u8, 121u8, 32u8, 96u8, 117u8, 99u8, 105u8, 96u8, 32u8, 97u8, 110u8, 100u8, 32u8, 117u8, 115u8, 101u8, 32u8, 97u8, 32u8, 118u8, 97u8, 108u8, 105u8, 100u8, 32u8, 105u8, 100u8, 32u8, 102u8, 114u8, 111u8, 109u8, 32u8, 116u8, 104u8, 101u8, 114u8, 101u8, 63u8]
}

/// The hint appended when `Hash` is not followed by `value`.
pub open spec fn hint_value() -> Seq<u8> {
    seq![10u8, 32u8, 84u8, 114u8, 121u8, 32u8, 96u8, 115u8, 101u8, 116u8, 111u8, 112u8, 116u8, 105u8, 111u8, 110u8, 32u8, 110u8, 97u8, 109u8, 101u8, 32u8, 72u8, 97u8, 115u8, 104u8, 32u8, 118u8, 97u8, 108u8, 117u8, 101u8, 32u8, 95u8, 96u8]
}

/// The reply to a line with an unknown first word.
pub open spec fn unknown_reply(line: Seq<u8>) -> Seq<u8> {
    seq![85u8, 110u8, 107u8, 110u8, 111u8, 119u8, 110u8, 32u8, 99u8, 111u8, 109u8, 109u8, 97u8, 110u8, 100u8, 58u8, 32u8] + trim_spec(line)
}

/// The five reply lines of the `uci` handshake.
pub open spec fn uci_reply() -> Seq<Seq<u8>> {
    seq![
        seq![105u8, 100u8, 32u8, 110u8, 97u8, 109u8, 101u8, 32u8, 84u8, 105u8, 115u8, 115u8, 111u8, 117u8, 115u8, 108u8, 101u8, 66u8, 111u8, 116u8],
        seq![105u8, 100u8, 32u8, 97u8, 117u8, 116u8, 104u8, 111u8, 114u8, 32u8, 84u8, 105u8, 115u8, 115u8, 111u8, 117u8, 115u8, 108u8, 101u8],
        seq![],
        seq![111u8, 112u8, 116u8, 105u8, 111u8, 110u8, 32u8, 110u8, 97u8, 109u8, 101u8, 32u8, 72u8, 97u8, 115u8, 104u8, 32u8, 116u8, 121u8, 112u8, 101u8, 32u8, 115u8, 112u8, 105u8, 110u8, 32u8, 100u8, 101u8, 102u8, 97u8, 117u8, 108u8, 116u8, 32u8, 49u8, 54u8, 32u8, 109u8, 105u8, 110u8, 32u8, 49u8, 32u8, 109u8, 97u8, 120u8, 32u8, 52u8, 48u8, 57u8, 54u8],
        seq![117u8, 99u8, 105u8, 111u8, 107u8],
    ]
}

/// The reply to `isready`.
pub open spec fn readyok_reply() -> Seq<u8> {
    seq![114u8, 101u8, 97u8, 100u8, 121u8, 111u8, 107u8]
}

/// One progress line of the driver, as printed.
pub open spec fn info_line_text(i: InfoLine) -> Seq<u8> {
    seq![105u8, 110u8, 102u8, 111u8, 32u8, 100u8, 101u8, 112u8, 116u8, 104u8, 32u8] + dec_text(i.depth as int) + seq![32u8, 116u8, 105u8, 109u8, 101u8, 32u8]
        + dec_text(i.time_ms as int) + seq![32u8, 110u8, 111u8, 100u8, 101u8, 115u8, 32u8] + dec_text(i.nodes as int)
        + seq![32u8, 115u8, 99u8, 111u8, 114u8, 101u8, 32u8, 99u8, 112u8, 32u8] + dec_text(i.score_cp as int) + seq![32u8, 112u8, 118u8, 32u8]
        + move_text_spec(i.pv)
}

/// The final line of a search: `bestmove` and the chosen move.
pub open spec fn bestmove_text(mv: u16) -> Seq<u8> {
    seq![98u8, 101u8, 115u8, 116u8, 109u8, 111u8, 118u8, 101u8, 32u8] + move_text_spec(mv)
}

fn info_line_bytes(i: &InfoLine) -> (r: Vec<u8>)
    ensures
        r@ == info_line_text(*i),
{
    let mut out: Vec<u8> = Vec::new();
    out.push(105);
    out.push(110);
    out.push(102);
    out.push(111);
    out.push(32);
    out.push(100);
    out.push(101);
    out.push(112);
    out.push(116);
    out.push(104);
    out.push(32);
    push_u128_text(&mut out, i.depth as u128);
    out.push(32);
    out.push(116);
    out.push(105);
    out.push(109);
    out.push(101);
    out.push(32);
    push_u128_text(&mut out, i.time_ms);
    out.push(32);
    out.push(110);
    out.push(111);
    out.push(100);
    out.push(101);
    out.push(115);
    out.push(32);
    push_u128_text(&mut out, i.nodes);
    out.push(32);
    out.push(115);
    out.push(99);
    out.push(111);
    out.push(114);
    out.push(101);
    out.push(32);
    out.push(99);
    out.push(112);
    out.push(32);
    push_i32_text(&mut out, i.score_cp);
    out.push(32);
    out.push(112);
    out.push(118);
    out.push(32);
    let mt = move_text(i.pv);
    push_all(&mut out, &mt);
    proof {
        assert(out@ =~= info_line_text(*i));
    }
    out
}

fn bestmove_bytes(mv: u16) -> (r: Vec<u8>)
    ensures
        r@ == bestmove_text(mv),
{
    let mut out: Vec<u8> = Vec::new();
    out.push(98);
    out.push(101);
    out.push(115);
    out.push(116);
    out.push(109);
    out.push(111);
    out.push(118);
    out.push(101);
    out.push(32);
    let mt = move_text(mv);
    push_all(&mut out, &mt);
    proof {
        assert(out@ =~= bestmove_text(mv));
    }
    out
}

fn unknown_bytes(line: &Vec<u8>) -> (r: Vec<u8>)
    ensures
        r@ == unknown_reply(line@),
{
    let mut out: Vec<u8> = Vec::new();
    out.push(85);
    out.push(110);
    out.push(107);
    out.push(110);
    out.push(111);
    out.push(119);
    out.push(110);
    out.push(32);
    out.push(99);
    out.push(111);
    out.push(109);
    out.push(109);
    out.push(97);
    out.push(110);
    out.push(100);
    out.push(58);
    out.push(32);
    let t = trim_bytes(line);
    push_all(&mut out, &t);
    proof {
        assert(out@ =~= unknown_reply(line@));
    }
    out
}

/// The views of the reply lines.
pub open spec fn line_views(lines: Seq<Vec<u8>>) -> Seq<Seq<u8>> {
    lines.map_values(|t: Vec<u8>| t@)
}

/// What one command line produced: the reply lines in order, and what
/// the surrounding process must do beyond printing them.
pub struct CommandOutput {
    pub lines: Vec<Vec<u8>>,
    pub print_board: bool,
    pub quit: bool,
    pub abort: bool,
}

/// Whether a line's first word is one of the commands.
pub open spec fn known_head(t: Seq<u8>) -> bool {
    ||| t == lit_position()
    ||| t == lit_go()
    ||| t == lit_setoption()
    ||| t == lit_d_cmd()
    ||| t == lit_uci()
    ||| t == lit_isready()
    ||| t == lit_ucinewgame()
    ||| t == lit_stop()
    ||| t == lit_quit()
}

/// The value a scan of a `go` line leaves for one keyword: each
/// occurrence overwrites the current value with its operand, parsed as
/// a number no greater than `max`, 0 when it does not parse.
pub open spec fn go_u32(toks: Seq<Seq<u8>>, key: Seq<u8>, max: u32, i: int, cur: u32) -> u32
    decreases toks.len() - i,
{
    if i < 0 || i >= toks.len() {
        cur
    } else if toks[i] == key && i + 1 < toks.len() {
        go_u32(toks, key, max, i + 1, parsed_uint(toks[i + 1], max as int) as u32)
    } else {
        go_u32(toks, key, max, i + 1, cur)
    }
}

/// Whether a reply line is some progress report of the driver.
pub open spec fn is_info_line(t: Seq<u8>) -> bool {
    exists|il: InfoLine| t == info_line_text(il)
}

/// Whether a `go` line names a keyword anywhere after the verb.
pub open spec fn go_key_present(toks: Seq<Seq<u8>>, key: Seq<u8>) -> bool {
    exists|i: int| 1 <= i < toks.len() && (#[trigger] toks[i]) == key
}

/// Whether every search keyword in a `go` line has its operand.
pub open spec fn go_operands_present(toks: Seq<Seq<u8>>) -> bool {
    forall|i: int|
        1 <= i < toks.len() && ((#[trigger] toks[i]) == lit_depth() || toks[i] == lit_wtime()
            || toks[i] == lit_btime() || toks[i] == lit_movetime()) ==> i + 1 < toks.len()
}

/// Handles one command line: parses it, updates the engine, and returns
/// the reply lines together with what the process must do next. The
/// handshake, readiness and unknown-command replies are pinned exactly;
/// a `position` command leaves the board at the outcome of playing the
/// listed moves; a `go` command leaves the board alone and ends its
/// reply with a `bestmove` line naming a generated move of the position
/// or the null move.
#[verifier::rlimit(100)]
pub fn handle_command(engine: &mut Engine, line: &Vec<u8>) -> (r: CommandOutput)
    requires
        old(engine).wf(),
    ensures
        final(engine).wf(),
        ({
            let toks = tokens_spec(line@);
            &&& (toks[0] == lit_uci() ==> line_views(r.lines@) == uci_reply())
            &&& (toks[0] == lit_isready() ==> line_views(r.lines@) == seq![readyok_reply()])
            &&& (toks[0] == lit_ucinewgame() ==> r.lines@.len() == 0)
            &&& (toks[0] == lit_stop() ==> final(engine).search_stopped && r.lines@.len() == 0)
            &&& (toks[0] == lit_quit() ==> !final(engine).active && r.quit && r.lines@.len()
                == 0)
            &&& (toks[0] == lit_d_cmd() ==> r.print_board && r.lines@.len() == 0)
            &&& (toks[0] == lit_position() && toks.len() >= 2 && (toks[1] == lit_startpos()
                || toks[1] == lit_fen()) ==> {
                let o = position_outcome(toks, line@);
                board_rep(final(engine).board) == o.0 && r.abort == o.1 && r.lines@.len() == 0
            })
            &&& (toks[0] == lit_go() ==> board_rep(final(engine).board) == board_rep(
                old(engine).board,
            ))
            &&& (toks[0] == lit_go() && go_operands_present(toks) ==> r.lines@.len() >= 1
                && (exists|m: u16|
                (m == 0 || moves_of(board_pos(old(engine).board)).contains(m)) && line_views(
                    r.lines@,
                ).last() == bestmove_text(m)))
            &&& (toks[0] == lit_setoption() && toks.len() >= 5 && toks[1] == lit_name()
                && toks[2] == lit_hash_opt() && toks[3] == lit_value() && 1 <= parsed_uint(
                toks[4],
                4096,
            ) ==> final(engine).hash_table_size_mb == parsed_uint(toks[4], 4096)
                && final(engine).entries_filled == 0)
            &&& (toks[0] == lit_setoption() && toks.len() >= 5 && toks[1] == lit_name()
                && toks[2] == lit_hash_opt() && toks[3] == lit_value() && parsed_uint(
                toks[4],
                4096,
            ) == 0 ==> line_views(r.lines@) == seq![unknown_reply(line@)])
            &&& (!known_head(toks[0]) ==> line_views(r.lines@) == seq![unknown_reply(line@)]
                && *final(engine) == (Engine {
                wtime: 0,
                btime: 0,
                movetime: 0,
                nodes: 0,
                ..*old(engine)
            }))
            &&& (toks[0] == lit_go() && go_operands_present(toks) ==> ({
                let d = go_u32(toks, lit_depth(), 255, 1, old(engine).depth as u32);
                let wt = go_u32(toks, lit_wtime(), 0xffffffff, 1, 0);
                let bt = go_u32(toks, lit_btime(), 0xffffffff, 1, 0);
                let mt = go_u32(toks, lit_movetime(), 0xffffffff, 1, 0);
                let clock = if white_to_move_of(board_pos(old(engine).board)) {
                    wt
                } else {
                    bt
                };
                &&& final(engine).depth as int == d
                &&& final(engine).wtime == wt
                &&& final(engine).btime == bt
                &&& (go_key_present(toks, lit_movetime()) ==> final(engine).movetime == mt)
                &&& (!go_key_present(toks, lit_movetime()) && (go_key_present(toks, lit_wtime())
                    || go_key_present(toks, lit_btime())) ==> exists|s: u32|
                    (#[trigger] (s * s)) <= clock < (s + 1) * (s + 1) && final(engine).movetime
                        == 10 * s)
                &&& (!go_key_present(toks, lit_movetime()) && !go_key_present(toks, lit_wtime())
                    && !go_key_present(toks, lit_btime()) ==> final(engine).movetime == 8000)
            }))
            &&& (toks[0] == lit_go() && go_operands_present(toks) ==> forall|k: int|
                0 <= k < r.lines@.len() - 1 ==> is_info_line(#[trigger] line_views(r.lines@)[k]))
            &&& (toks[0] == lit_position() && !(toks.len() >= 2 && (toks[1] == lit_startpos()
                || toks[1] == lit_fen())) ==> line_views(r.lines@) == seq![unknown_reply(line@)])
            &&& (toks[0] == lit_setoption() && toks.len() >= 2 && !(toks[1] == lit_name())
                ==> line_views(r.lines@) == seq![unknown_reply(line@) + hint_name()])
            &&& (toks[0] == lit_setoption() && toks.len() >= 3 && toks[1] == lit_name() && !(
            toks[2] == lit_hash_opt()) ==> line_views(r.lines@) == seq![
                unknown_reply(line@) + hint_id(),
            ])
            &&& (toks[0] == lit_setoption() && toks.len() >= 4 && toks[1] == lit_name()
                && toks[2] == lit_hash_opt() && !(toks[3] == lit_value()) ==> line_views(
                r.lines@,
            ) == seq![unknown_reply(line@) + hint_value()])
            &&& (toks[0] == lit_setoption() && (toks.len() == 1 || (toks.len() >= 2 && toks[1]
                == lit_name() && toks.len() == 2) || (toks.len() >= 3 && toks[1] == lit_name()
                && toks[2] == lit_hash_opt() && toks.len() == 3) || (toks.len() >= 4 && toks[1]
                == lit_name() && toks[2] == lit_hash_opt() && toks[3] == lit_value()
                && toks.len() == 4)) ==> line_views(r.lines@) == seq![unknown_reply(line@)])
        }),
{
    proof {
        crate::text::lemma_split_nonempty(trim_spec(line@));
    }
    let toks = tokenize(line);
    let ghost toksv = tokens_spec(line@);
    proof {
        assert(toksv.len() == toks@.len());
        assert(forall|q: int| 0 <= q < toks@.len() ==> toksv[q] == (#[trigger] toks@[q])@);
    }
    engine.re_initialize();
    let mut out = CommandOutput { lines: Vec::new(), print_board: false, quit: false, abort: false };
    if is_position(&toks[0]) {
        if toks.len() >= 2 && is_startpos(&toks[1]) {
            engine.board = start_board();
            let mut there_are_moves = false;
            let mut j: usize = 1;
            while j < toks.len()
                invariant
                    1 <= j <= toks@.len(),
                    engine.wf(),
                    toks@.map_values(|t: Vec<u8>| t@) == toksv,
                    forall|q: int| 0 <= q < toks@.len() ==> toksv[q] == (#[trigger] toks@[q])@,
                    toksv == tokens_spec(line@),
                    toksv.len() >= 2 && toksv[1] == lit_startpos() && toksv[0] == lit_position(),
                    out.lines@.len() == 0,
                    !out.abort && !out.quit && !out.print_board,
                    position_outcome(toksv, line@) == startpos_walk(
                        board_rep(engine.board),
                        toksv,
                        j as int,
                        there_are_moves,
                    ),
                decreases toks@.len() - j,
            {
                let ghost pre_rep = board_rep(engine.board);
                let ghost pre_seen = there_are_moves;
                if is_moves(&toks[j]) {
                    there_are_moves = true;
                } else {
                    if there_are_moves {
                        let ok = apply_uci_word(&mut engine.board, &toks[j]);
                        if !ok {
                            out.abort = true;
                            proof {
                                assert(startpos_walk(pre_rep, toksv, j as int, pre_seen) == (
                                    board_rep(engine.board),
                                    true,
                                ));
                            }
                            return out;
                        }
                    }
                }
                proof {
                    assert(startpos_walk(pre_rep, toksv, j as int, pre_seen) == startpos_walk(
                        board_rep(engine.board),
                        toksv,
                        j as int + 1,
                        there_are_moves,
                    ));
                }
                j = j + 1;
            }
            return out;
        } else if toks.len() >= 2 && is_fen(&toks[1]) {
            let mut fenv: Vec<u8> = Vec::new();
            let mut collecting = false;
            let mut there_are_moves = false;
            let mut k: usize = 0;
            while k < toks.len() && !there_are_moves
                invariant
                    k <= toks@.len(),
                    engine.wf(),
                    toks@.map_values(|t: Vec<u8>| t@) == toksv,
                    forall|q: int| 0 <= q < toks@.len() ==> toksv[q] == (#[trigger] toks@[q])@,
                    toksv == tokens_spec(line@),
                    toksv.len() >= 2 && toksv[0] == lit_position() && toksv[1] == lit_fen(),
                    out.lines@.len() == 0,
                    !out.abort && !out.quit && !out.print_board,
                    fen_collect(toksv, 0, false) == fenv@ + fen_collect(
                        toksv,
                        k as int,
                        collecting,
                    ),
                    !there_are_moves ==> first_moves(toksv, k as int) == first_moves(toksv, 0),
                    there_are_moves ==> k < toks@.len() && toksv[k as int] == lit_moves()
                        && first_moves(toksv, 0) == k as int,
                decreases toks@.len() - k + (if there_are_moves { 0int } else { 1int }),
            {
                if is_fen(&toks[k]) {
                    collecting = true;
                    k = k + 1;
                } else if is_moves(&toks[k]) {
                    there_are_moves = true;
                } else {
                    if collecting {
                        push_all(&mut fenv, &toks[k]);
                        fenv.push(32);
                        proof {
                            assert(fen_collect(toksv, 0, false) =~= fenv@ + fen_collect(
                                toksv,
                                k as int + 1,
                                true,
                            ));
                        }
                    }
                    k = k + 1;
                }
            }
            proof {
                assert(fen_collect(toksv, 0, false) =~= fenv@);
            }
            if crate::fen::fen_acceptable(&fenv) {
                engine.board = board_from_fen(&fenv);
            } else {
                // a line the guard keeps away from the parser gets the
                // same treatment as one the parser rejects
                engine.board = start_board();
            }
            if there_are_moves {
                let mut m: usize = k + 1;
                let ghost base = if crate::fen::fen_ok_spec(fen_collect(toksv, 0, false)) {
                    fen_rep_of(fen_collect(toksv, 0, false))
                } else {
                    fen_rep_of(start_fen())
                };
                while m < toks.len()
                    invariant
                        k as int + 1 <= m as int <= toks@.len(),
                        engine.wf(),
                        toks@.map_values(|t: Vec<u8>| t@) == toksv,
                        forall|q: int|
                            0 <= q < toks@.len() ==> toksv[q] == (#[trigger] toks@[q])@,
                        toksv == tokens_spec(line@),
                        toksv.len() >= 2 && toksv[0] == lit_position() && toksv[1] == lit_fen(),
                        !(toksv[1] == lit_startpos()),
                        out.lines@.len() == 0,
                        !out.abort && !out.quit && !out.print_board,
                        first_moves(toksv, 0) == k as int,
                        base == (if crate::fen::fen_ok_spec(fen_collect(toksv, 0, false)) {
                            fen_rep_of(fen_collect(toksv, 0, false))
                        } else {
                            fen_rep_of(start_fen())
                        }),
                        walk_moves(base, toksv, k as int + 1) == walk_moves(
                            board_rep(engine.board),
                            toksv,
                            m as int,
                        ),
                    decreases toks@.len() - m,
                {
                    let ghost pre_rep = board_rep(engine.board);
                    let ok = apply_uci_word(&mut engine.board, &toks[m]);
                    if !ok {
                        out.abort = true;
                        proof {
                            assert(walk_moves(pre_rep, toksv, m as int) == (
                                board_rep(engine.board),
                                true,
                            ));
                        }
                        return out;
                    }
                    proof {
                        assert(walk_moves(pre_rep, toksv, m as int) == walk_moves(
                            board_rep(engine.board),
                            toksv,
                            m as int + 1,
                        ));
                    }
                    m = m + 1;
                }
                proof {
                    assert(walk_moves(board_rep(engine.board), toksv, toksv.len() as int) == (
                        board_rep(engine.board),
                        false,
                    ));
                }
            }
            return out;
        } else {
            out.lines.push(unknown_bytes(line));
            proof {
                assert(line_views(out.lines@) =~~= seq![unknown_reply(line@)]);
            }
            return out;
        }
    } else if is_go(&toks[0]) {
        let mut i: usize = 1;
        let mut movetime_given = false;
        let mut wtime_given = false;
        let mut btime_given = false;
        while i < toks.len()
            invariant
                1 <= i <= toks@.len(),
                movetime_given == (exists|q: int|
                    1 <= q < i && (#[trigger] toksv[q]) == lit_movetime()),
                wtime_given == (exists|q: int| 1 <= q < i && (#[trigger] toksv[q]) == lit_wtime()),
                btime_given == (exists|q: int| 1 <= q < i && (#[trigger] toksv[q]) == lit_btime()),
                engine.wf(),
                engine.board == old(engine).board,
                engine.active == old(engine).active,
                engine.search_stopped == old(engine).search_stopped,
                toks@.map_values(|t: Vec<u8>| t@) == toksv,
                forall|q: int| 0 <= q < toks@.len() ==> toksv[q] == (#[trigger] toks@[q])@,
                toksv == tokens_spec(line@),
                toksv[0] == lit_go(),
                out.lines@.len() == 0,
                !out.abort && !out.quit && !out.print_board,
                go_u32(toksv, lit_depth(), 255, 1, old(engine).depth as u32) == go_u32(
                    toksv,
                    lit_depth(),
                    255,
                    i as int,
                    engine.depth as u32,
                ),
                go_u32(toksv, lit_wtime(), 0xffffffff, 1, 0) == go_u32(
                    toksv,
                    lit_wtime(),
                    0xffffffff,
                    i as int,
                    engine.wtime,
                ),
                go_u32(toksv, lit_btime(), 0xffffffff, 1, 0) == go_u32(
                    toksv,
                    lit_btime(),
                    0xffffffff,
                    i as int,
                    engine.btime,
                ),
                go_u32(toksv, lit_movetime(), 0xffffffff, 1, 0) == go_u32(
                    toksv,
                    lit_movetime(),
                    0xffffffff,
                    i as int,
                    engine.movetime,
                ),
            decreases toks@.len() - i,
        {
            let ghost pre_depth = engine.depth as u32;
            let ghost pre_wtime = engine.wtime;
            let ghost pre_btime = engine.btime;
            let ghost pre_movetime = engine.movetime;
            if is_depth(&toks[i]) {
                if i + 1 >= toks.len() {
                    out.lines.push(unknown_bytes(line));
                    return out;
                }
                engine.depth = parse_uint(&toks[i + 1], 255) as u8;
            } else if is_wtime(&toks[i]) {
                if i + 1 >= toks.len() {
                    out.lines.push(unknown_bytes(line));
                    return out;
                }
                engine.wtime = parse_uint(&toks[i + 1], 4294967295);
                wtime_given = true;
            } else if is_btime(&toks[i]) {
                if i + 1 >= toks.len() {
                    out.lines.push(unknown_bytes(line));
                    return out;
                }
                engine.btime = parse_uint(&toks[i + 1], 4294967295);
                btime_given = true;
            } else if is_movetime(&toks[i]) {
                if i + 1 >= toks.len() {
                    out.lines.push(unknown_bytes(line));
                    return out;
                }
                engine.movetime = parse_uint(&toks[i + 1], 4294967295);
                movetime_given = true;
            }
            proof {
                assert(go_u32(toksv, lit_depth(), 255, i as int, pre_depth) == go_u32(
                    toksv,
                    lit_depth(),
                    255,
                    i as int + 1,
                    engine.depth as u32,
                ));
                assert(go_u32(toksv, lit_wtime(), 0xffffffff, i as int, pre_wtime) == go_u32(
                    toksv,
                    lit_wtime(),
                    0xffffffff,
                    i as int + 1,
                    engine.wtime,
                ));
                assert(go_u32(toksv, lit_btime(), 0xffffffff, i as int, pre_btime) == go_u32(
                    toksv,
                    lit_btime(),
                    0xffffffff,
                    i as int + 1,
                    engine.btime,
                ));
                assert(go_u32(toksv, lit_movetime(), 0xffffffff, i as int, pre_movetime)
                    == go_u32(toksv, lit_movetime(), 0xffffffff, i as int + 1, engine.movetime));
            }
            i = i + 1;
        }
        proof {
            assert(movetime_given == go_key_present(toksv, lit_movetime()));
            assert(wtime_given == go_key_present(toksv, lit_wtime()));
            assert(btime_given == go_key_present(toksv, lit_btime()));
        }
        let white = board_white_to_move(&engine.board);
        engine.movetime = crate::engine::resolve_budget(
            engine.movetime,
            movetime_given,
            engine.wtime,
            engine.btime,
            wtime_given || btime_given,
            white,
        );
        engine.search_stopped = false;
        let report = search(engine);
        let mut j: usize = 0;
        while j < report.infos.len()
            invariant
                j <= report.infos@.len(),
                engine.wf(),
                engine.board == old(engine).board,
                toksv == tokens_spec(line@),
                toksv[0] == lit_go(),
                !out.abort && !out.quit && !out.print_board,
                out.lines@.len() == j,
                forall|q: int|
                    0 <= q < j ==> (#[trigger] out.lines@[q])@ == info_line_text(
                        report.infos@[q],
                    ),
                report.best_move == 0 || moves_of(board_pos(old(engine).board)).contains(
                    report.best_move,
                ),
            decreases report.infos@.len() - j,
        {
            let il = info_line_bytes(&report.infos[j]);
            out.lines.push(il);
            j = j + 1;
        }
        let bm = bestmove_bytes(report.best_move);
        out.lines.push(bm);
        proof {
            assert(line_views(out.lines@).last() == bestmove_text(report.best_move));
            assert forall|k: int| 0 <= k < out.lines@.len() - 1 implies is_info_line(
                #[trigger] line_views(out.lines@)[k],
            ) by {
                assert(line_views(out.lines@)[k] == info_line_text(report.infos@[k]));
            }
        }
        return out;
    } else if is_setoption(&toks[0]) {
        if toks.len() < 2 {
            out.lines.push(unknown_bytes(line));
            proof {
                assert(line_views(out.lines@) =~~= seq![unknown_reply(line@)]);
            }
            return out;
        }
        if !is_name(&toks[1]) {
            let mut msg = unknown_bytes(line);
        msg.push(10);
        msg.push(32);
        msg.push(77);
        msg.push(97);
        msg.push(121);
        msg.push(98);
        msg.push(101);
        msg.push(32);
        msg.push(116);
        msg.push(114);
        msg.push(121);
        msg.push(32);
        msg.push(115);
        msg.push(101);
        msg.push(116);
        msg.push(111);
        msg.push(112);
        msg.push(116);
        msg.push(105);
        msg.push(111);
        msg.push(110);
        msg.push(32);
        msg.push(96);
        msg.push(110);
        msg.push(97);
        msg.push(109);
        msg.push(101);
        msg.push(96);
        msg.push(63);
            out.lines.push(msg);
            proof {
                assert(msg@ =~= unknown_reply(line@) + hint_name());
                assert(line_views(out.lines@) =~~= seq![unknown_reply(line@) + hint_name()]);
            }
            return out;
        }
        if toks.len() < 3 {
            out.lines.push(unknown_bytes(line));
            proof {
                assert(line_views(out.lines@) =~~= seq![unknown_reply(line@)]);
            }
            return out;
        }
        if !is_hash_opt(&toks[2]) {
            let mut msg = unknown_bytes(line);
        msg.push(10);
        msg.push(32);
        msg.push(77);
        msg.push(97);
        msg.push(121);
        msg.push(98);
        msg.push(101);
        msg.push(32);
        msg.push(116);
        msg.push(114);
        msg.push(121);
        msg.push(32);
        msg.push(96);
        msg.push(117);
        msg.push(99);
        msg.push(105);
        msg.push(96);
        msg.push(32);
        msg.push(97);
        msg.push(110);
        msg.push(100);
        msg.push(32);
        msg.push(117);
        msg.push(115);
        msg.push(101);
        msg.push(32);
        msg.push(97);
        msg.push(32);
        msg.push(118);
        msg.push(97);
        msg.push(108);
        msg.push(105);
        msg.push(100);
        msg.push(32);
        msg.push(105);
        msg.push(100);
        msg.push(32);
        msg.push(102);
        msg.push(114);
        msg.push(111);
        msg.push(109);
        msg.push(32);
        msg.push(116);
        msg.push(104);
        msg.push(101);
        msg.push(114);
        msg.push(101);
        msg.push(63);
            out.lines.push(msg);
            proof {
                assert(msg@ =~= unknown_reply(line@) + hint_id());
                assert(line_views(out.lines@) =~~= seq![unknown_reply(line@) + hint_id()]);
            }
            return out;
        }
        if toks.len() < 4 {
            out.lines.push(unknown_bytes(line));
            proof {
                assert(line_views(out.lines@) =~~= seq![unknown_reply(line@)]);
            }
            return out;
        }
        if !is_value(&toks[3]) {
            let mut msg = unknown_bytes(line);
        msg.push(10);
        msg.push(32);
        msg.push(84);
        msg.push(114);
        msg.push(121);
        msg.push(32);
        msg.push(96);
        msg.push(115);
        msg.push(101);
        msg.push(116);
        msg.push(111);
        msg.push(112);
        msg.push(116);
        msg.push(105);
        msg.push(111);
        msg.push(110);
        msg.push(32);
        msg.push(110);
        msg.push(97);
        msg.push(109);
        msg.push(101);
        msg.push(32);
        msg.push(72);
        msg.push(97);
        msg.push(115);
        msg.push(104);
        msg.push(32);
        msg.push(118);
        msg.push(97);
        msg.push(108);
        msg.push(117);
        msg.push(101);
        msg.push(32);
        msg.push(95);
        msg.push(96);
            out.lines.push(msg);
            proof {
                assert(msg@ =~= unknown_reply(line@) + hint_value());
                assert(line_views(out.lines@) =~~= seq![unknown_reply(line@) + hint_value()]);
            }
            return out;
        }
        if toks.len() < 5 {
            out.lines.push(unknown_bytes(line));
            proof {
                assert(line_views(out.lines@) =~~= seq![unknown_reply(line@)]);
            }
            return out;
        }
        let v = parse_uint(&toks[4], 4096);
        if v >= 1 {
            engine.change_hash_size(v as usize);
        } else {
            out.lines.push(unknown_bytes(line));
            proof {
                assert(line_views(out.lines@) =~~= seq![unknown_reply(line@)]);
            }
        }
        return out;
    } else if is_d_cmd(&toks[0]) {
        out.print_board = true;
        return out;
    } else if is_uci(&toks[0]) {
        let mut a: Vec<u8> = Vec::new();
        a.push(105);
        a.push(100);
        a.push(32);
        a.push(110);
        a.push(97);
        a.push(109);
        a.push(101);
        a.push(32);
        a.push(84);
        a.push(105);
        a.push(115);
        a.push(115);
        a.push(111);
        a.push(117);
        a.push(115);
        a.push(108);
        a.push(101);
        a.push(66);
        a.push(111);
        a.push(116);
        out.lines.push(a);
        let mut b: Vec<u8> = Vec::new();
        b.push(105);
        b.push(100);
        b.push(32);
        b.push(97);
        b.push(117);
        b.push(116);
        b.push(104);
        b.push(111);
        b.push(114);
        b.push(32);
        b.push(84);
        b.push(105);
        b.push(115);
        b.push(115);
        b.push(111);
        b.push(117);
        b.push(115);
        b.push(108);
        b.push(101);
        out.lines.push(b);
        out.lines.push(Vec::new());
        let mut c: Vec<u8> = Vec::new();
        c.push(111);
        c.push(112);
        c.push(116);
        c.push(105);
        c.push(111);
        c.push(110);
        c.push(32);
        c.push(110);
        c.push(97);
        c.push(109);
        c.push(101);
        c.push(32);
        c.push(72);
        c.push(97);
        c.push(115);
        c.push(104);
        c.push(32);
        c.push(116);
        c.push(121);
        c.push(112);
        c.push(101);
        c.push(32);
        c.push(115);
        c.push(112);
        c.push(105);
        c.push(110);
        c.push(32);
        c.push(100);
        c.push(101);
        c.push(102);
        c.push(97);
        c.push(117);
        c.push(108);
        c.push(116);
        c.push(32);
        c.push(49);
        c.push(54);
        c.push(32);
        c.push(109);
        c.push(105);
        c.push(110);
        c.push(32);
        c.push(49);
        c.push(32);
        c.push(109);
        c.push(97);
        c.push(120);
        c.push(32);
        c.push(52);
        c.push(48);
        c.push(57);
        c.push(54);
        out.lines.push(c);
        let mut e: Vec<u8> = Vec::new();
        e.push(117);
        e.push(99);
        e.push(105);
        e.push(111);
        e.push(107);
        out.lines.push(e);
        proof {
            assert(line_views(out.lines@) =~~= uci_reply());
        }
        return out;
    } else if is_isready(&toks[0]) {
        let mut a: Vec<u8> = Vec::new();
        a.push(114);
        a.push(101);
        a.push(97);
        a.push(100);
        a.push(121);
        a.push(111);
        a.push(107);
        out.lines.push(a);
        proof {
            assert(line_views(out.lines@) =~~= seq![readyok_reply()]);
        }
        return out;
    } else if is_ucinewgame(&toks[0]) {
        return out;
    } else if is_stop(&toks[0]) {
        engine.search_stopped = true;
        return out;
    } else if is_quit(&toks[0]) {
        engine.active = false;
        out.quit = true;
        return out;
    } else {
        out.lines.push(unknown_bytes(line));
        return out;
    }
}

} // verus!
