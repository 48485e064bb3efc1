//! The boundary to the pleco chess library: the board and clock types it
//! provides, names for the values its functions compute, and the trusted
//! wrappers through which the rest of the crate calls it.
use vstd::prelude::*;

verus! {

#[verifier::external_type_specification]
#[verifier::external_body]
pub struct ExBoard(pleco::Board);

#[verifier::external_type_specification]
#[verifier::external_body]
pub struct ExInstant(std::time::Instant);

/// The abstract value a `pleco::Board` holds: placement, side to move,
/// castling and en-passant state, counters, the undo history, and the
/// undo-capacity counter that a shallow clone resets.
pub uninterp spec fn board_rep(b: pleco::Board) -> Seq<u64>;

/// The position a board value holds: everything a read of the board can
/// see, without the undo history and the undo-capacity counter. A
/// shallow clone keeps the position while it resets the capacity, so
/// the readers below are functions of this projection, not of the full
/// value.
pub uninterp spec fn pos_of(rep: Seq<u64>) -> Seq<u64>;

/// The position of the board a variable holds.
pub open spec fn board_pos(b: pleco::Board) -> Seq<u64> {
    pos_of(board_rep(b))
}

/// The position that `pleco::Board::from_fen` builds from a FEN line,
/// falling back to the start position when the line does not parse.
pub uninterp spec fn fen_rep_of(fen: Seq<u8>) -> Seq<u64>;

/// The raw encodings of the moves `pleco::Board::generate_moves` returns.
pub uninterp spec fn moves_of(pos: Seq<u64>) -> Seq<u16>;

/// The position after `pleco::Board::apply_move`.
pub uninterp spec fn apply_of(rep: Seq<u64>, mv: u16) -> Seq<u64>;

/// The position after `pleco::Board::undo_move`.
pub uninterp spec fn undo_of(rep: Seq<u64>) -> Seq<u64>;

/// What `pleco::Board::zobrist` returns.
pub uninterp spec fn zobrist_of(pos: Seq<u64>) -> u64;

/// Whether `pleco::Board::turn` returns the white player.
pub uninterp spec fn white_to_move_of(pos: Seq<u64>) -> bool;

/// What `pleco::Board::in_check` returns.
pub uninterp spec fn in_check_of(pos: Seq<u64>) -> bool;

/// What `pleco::Board::checkmate` returns.
pub uninterp spec fn checkmate_of(pos: Seq<u64>) -> bool;

/// What `pleco::Board::stalemate` returns.
pub uninterp spec fn stalemate_of(pos: Seq<u64>) -> bool;

/// What `pleco::Board::count_all_pieces` returns.
pub uninterp spec fn piece_count_of(pos: Seq<u64>) -> u8;

/// What `pleco::Board::moves_played` returns.
pub uninterp spec fn moves_played_of(pos: Seq<u64>) -> u16;

/// The piece code `pleco::Board::piece_at_sq` returns at a square:
/// 0 for an empty square, 1-6 for white pawn through king, 9-14 for
/// black pawn through king.
pub uninterp spec fn piece_code_of(pos: Seq<u64>, sq: int) -> u8;

/// What `pleco::Board::gives_check` returns for a generated move.
pub uninterp spec fn gives_check_of(pos: Seq<u64>, mv: u16) -> bool;

/// The FEN line of the standard initial position.
pub open spec fn start_fen() -> Seq<u8> {
    seq![
        'r' as u8, 'n' as u8, 'b' as u8, 'q' as u8, 'k' as u8, 'b' as u8, 'n' as u8, 'r' as u8,
        '/' as u8, 'p' as u8, 'p' as u8, 'p' as u8, 'p' as u8, 'p' as u8, 'p' as u8, 'p' as u8,
        'p' as u8, '/' as u8, '8' as u8, '/' as u8, '8' as u8, '/' as u8, '8' as u8, '/' as u8,
        '8' as u8, '/' as u8, 'P' as u8, 'P' as u8, 'P' as u8, 'P' as u8, 'P' as u8, 'P' as u8,
        'P' as u8, 'P' as u8, '/' as u8, 'R' as u8, 'N' as u8, 'B' as u8, 'Q' as u8, 'K' as u8,
        'B' as u8, 'N' as u8, 'R' as u8, ' ' as u8, 'w' as u8, ' ' as u8, 'K' as u8, 'Q' as u8,
        'k' as u8, 'q' as u8, ' ' as u8, '-' as u8, ' ' as u8, '0' as u8, ' ' as u8, '1' as u8,
    ]
}

/// Relies on pleco's `Board::start_pos`, whose body parses exactly the
/// standard start FEN, so it returns the same board as a FEN parse of it.
#[verifier::external_body]
pub(crate) fn start_board() -> (b: pleco::Board)
    ensures
        board_rep(b) == fen_rep_of(start_fen()),
{
    pleco::Board::start_pos()
}

/// Relies on pleco's `Board::from_fen`; a line that fails to parse yields
/// `Board::default()`, which is the start position. The parser gives up
/// abruptly rather than return an error on a side without a king, an
/// overlong placement row followed by more characters, a castling letter
/// it does not know, a full-move count of 0 or beyond 32768, and it
/// splits fields at whitespace other than spaces; the guard in `requires`
/// keeps all of those away from it.
#[verifier::external_body]
pub(crate) fn board_from_fen(fen: &Vec<u8>) -> (b: pleco::Board)
    requires
        crate::fen::fen_ok_spec(fen@),
    ensures
        board_rep(b) == fen_rep_of(fen@),
{
    let text = String::from_utf8_lossy(fen);
    pleco::Board::from_fen(&text).unwrap_or_default()
}

/// Relies on pleco's `Board::shallow_clone`: the clone holds the same
/// position, hash and state chain as the board it was taken from, but
/// its undo-capacity counter starts at zero, so only the position
/// projection carries over, and a fresh clone cannot be undone.
#[verifier::external_body]
pub(crate) fn clone_board(b: &pleco::Board) -> (c: pleco::Board)
    ensures
        pos_of(board_rep(c)) == pos_of(board_rep(*b)),
{
    b.shallow_clone()
}

/// Relies on pleco's `Board::generate_moves`; each generated `BitMove` is
/// handed out as its raw 16-bit encoding.
#[verifier::external_body]
pub(crate) fn board_moves(b: &pleco::Board) -> (r: Vec<u16>)
    ensures
        r@ == moves_of(pos_of(board_rep(*b))),
{
    b.generate_moves().iter().map(|m| m.get_raw()).collect()
}

/// Relies on pleco's `Board::apply_move`, which pushes exactly one undo
/// state, and on `Board::undo_move`, which pops exactly that state, so an
/// undo right after an apply restores the previous board.
#[verifier::external_body]
pub(crate) fn board_apply(b: &mut pleco::Board, mv: u16)
    requires
        moves_of(pos_of(board_rep(*old(b)))).contains(mv),
    ensures
        board_rep(*final(b)) == apply_of(board_rep(*old(b)), mv)
            && undo_of(apply_of(board_rep(*old(b)), mv)) == board_rep(*old(b)),
{
    b.apply_move(pleco::BitMove::new(mv));
}

/// Relies on pleco's `Board::undo_move`, which restores the board that the
/// most recent apply started from; it must only be called on a board that
/// came out of an apply.
#[verifier::external_body]
pub(crate) fn board_undo(b: &mut pleco::Board)
    requires
        exists|s: Seq<u64>, m: u16| board_rep(*old(b)) == apply_of(s, m),
    ensures
        board_rep(*final(b)) == undo_of(board_rep(*old(b))),
{
    b.undo_move();
}

/// Relies on pleco's `Board::zobrist`.
#[verifier::external_body]
pub(crate) fn board_zobrist(b: &pleco::Board) -> (r: u64)
    ensures
        r == zobrist_of(pos_of(board_rep(*b))),
{
    b.zobrist()
}

/// Relies on pleco's `Board::turn`.
#[verifier::external_body]
pub(crate) fn board_white_to_move(b: &pleco::Board) -> (r: bool)
    ensures
        r == white_to_move_of(pos_of(board_rep(*b))),
{
    b.turn() == pleco::Player::White
}

/// Relies on pleco's `Board::in_check`.
#[verifier::external_body]
pub(crate) fn board_in_check(b: &pleco::Board) -> (r: bool)
    ensures
        r == in_check_of(pos_of(board_rep(*b))),
{
    b.in_check()
}

/// Relies on pleco's `Board::checkmate`, which holds only in check,
/// while `Board::stalemate` holds only out of check: the two never hold
/// together.
#[verifier::external_body]
pub(crate) fn board_checkmate(b: &pleco::Board) -> (r: bool)
    ensures
        r == checkmate_of(pos_of(board_rep(*b))),
        r ==> !stalemate_of(pos_of(board_rep(*b))),
{
    b.checkmate()
}

/// Relies on pleco's `Board::stalemate`.
#[verifier::external_body]
pub(crate) fn board_stalemate(b: &pleco::Board) -> (r: bool)
    ensures
        r == stalemate_of(pos_of(board_rep(*b))),
{
    b.stalemate()
}

/// Relies on pleco's `Board::count_all_pieces`.
#[verifier::external_body]
pub(crate) fn board_piece_count(b: &pleco::Board) -> (r: u8)
    ensures
        r == piece_count_of(pos_of(board_rep(*b))),
{
    b.count_all_pieces()
}

/// Relies on pleco's `Board::moves_played`.
#[verifier::external_body]
pub(crate) fn board_moves_played(b: &pleco::Board) -> (r: u16)
    ensures
        r == moves_played_of(pos_of(board_rep(*b))),
{
    b.moves_played()
}

/// Relies on pleco's `Board::piece_at_sq`, handed out as the `Piece`
/// enum's discriminant; its variants are 0, 1 through 6 and 9 through 14.
#[verifier::external_body]
pub(crate) fn board_piece_code(b: &pleco::Board, sq: u8) -> (r: u8)
    requires
        sq < 64,
    ensures
        r == piece_code_of(pos_of(board_rep(*b)), sq as int),
        r <= 14 && r != 7 && r != 8,
{
    b.piece_at_sq(pleco::SQ(sq)) as u8
}

/// Relies on pleco's `Board::gives_check` for a generated move.
#[verifier::external_body]
pub(crate) fn board_gives_check(b: &pleco::Board, mv: u16) -> (r: bool)
    requires
        moves_of(pos_of(board_rep(*b))).contains(mv),
    ensures
        r == gives_check_of(pos_of(board_rep(*b)), mv),
{
    b.gives_check(pleco::BitMove::new(mv))
}

/// Relies on std's `Instant::now`.
#[verifier::external_body]
pub(crate) fn time_now() -> (t: std::time::Instant) {
    std::time::Instant::now()
}

/// Relies on std's `Instant::elapsed`.
#[verifier::external_body]
pub(crate) fn time_elapsed(t: &std::time::Instant) -> (d: core::time::Duration) {
    t.elapsed()
}

/// Relies on std's `Duration::as_millis`.
#[verifier::external_body]
pub(crate) fn duration_millis(d: &core::time::Duration) -> (r: u128) {
    d.as_millis()
}

} // verus!
