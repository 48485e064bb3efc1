//! The engine state: the current board, search configuration, clocks, and
//! the direct-mapped transposition table, together with the time manager.
use vstd::prelude::*;
use crate::board::{board_rep, board_pos, zobrist_of, fen_rep_of, start_fen, start_board, time_now,
    time_elapsed, duration_millis};

verus! {

/// The least and greatest scores the searcher passes as window bounds.
pub const MINIMUM_EVAL: i32 = -2_147_483_647;

pub const MAXIMUM_EVAL: i32 = 2_147_483_647;

/// The cap on selective depth extensions along one search path.
pub const MAX_EXTENSIONS: u8 = 8;

/// Transposition entries per MiB: each entry takes 16 bytes.
pub const MB_TO_ITEMS: usize = 65536;

/// The spin-option bounds of the transposition table size, in MiB.
pub const MIN_HASH_MB: usize = 1;

pub const MAX_HASH_MB: usize = 4096;

/// One slot of the transposition table. An entry whose `hash` is 0 is
/// treated as vacant; `best_move` 0 is the null move.
#[derive(Clone, Copy)]
pub struct TranspositionObject {
    pub hash: u64,
    pub score: i32,
    pub depth: u8,
    pub best_move: u16,
}

impl TranspositionObject {
    /// The vacant entry.
    pub open spec fn vacant() -> TranspositionObject {
        (TranspositionObject { hash: 0, score: 0, depth: 0, best_move: 0 })
    }

    pub fn new() -> (r: TranspositionObject)
        ensures
            r == TranspositionObject::vacant(),
    {
        TranspositionObject { hash: 0, score: 0, depth: 0, best_move: 0 }
    }
}

/// The slot of the table that a hash maps to.
pub open spec fn tt_slot(table: Seq<TranspositionObject>, hash: u64) -> int {
    hash as int % table.len() as int
}

/// What a probe for `hash` finds: the stored entry when the slot holds
/// that hash, else the vacant entry.
pub open spec fn probe_spec(table: Seq<TranspositionObject>, hash: u64) -> TranspositionObject {
    if table[tt_slot(table, hash)].hash == hash {
        table[tt_slot(table, hash)]
    } else {
        TranspositionObject::vacant()
    }
}

/// What a store writes: the slot of the entry's hash is overwritten
/// unconditionally.
pub open spec fn store_spec(table: Seq<TranspositionObject>, entry: TranspositionObject) -> Seq<
    TranspositionObject,
> {
    table.update(tt_slot(table, entry.hash), entry)
}

pub struct Engine {
    pub board: pleco::Board,
    pub search_stopped: bool,
    pub active: bool,
    pub wtime: u32,
    pub btime: u32,
    pub movetime: u32,
    pub depth: u8,
    pub instant: std::time::Instant,
    pub nodes: u128,
    pub hash_table_size_mb: usize,
    pub transposition_table: Vec<TranspositionObject>,
    pub entries_filled: u32,
}

impl Engine {
    /// The table is sized to the configured MiB count, and every stored
    /// score lies within the search window bounds.
    pub open spec fn wf(self) -> bool {
        &&& MIN_HASH_MB <= self.hash_table_size_mb <= MAX_HASH_MB
        &&& self.transposition_table@.len() == self.hash_table_size_mb * MB_TO_ITEMS
        &&& forall|i: int|
            0 <= i < self.transposition_table@.len() ==> (
            #[trigger] self.transposition_table@[i]).score >= MINIMUM_EVAL
    }

    pub fn new(hash_size_in_mb: usize) -> (r: Engine)
        requires
            MIN_HASH_MB <= hash_size_in_mb <= MAX_HASH_MB,
        ensures
            r.wf(),
            board_rep(r.board) == fen_rep_of(start_fen()),
            r.search_stopped && r.active,
            r.wtime == 0 && r.btime == 0 && r.movetime == 0,
            r.depth == 20,
            r.nodes == 0,
            r.hash_table_size_mb == hash_size_in_mb,
            r.transposition_table@.len() == hash_size_in_mb * MB_TO_ITEMS,
            forall|i: int|
                0 <= i < r.transposition_table@.len() ==> r.transposition_table@[i]
                    == TranspositionObject::vacant(),
            r.entries_filled == 0,
    {
        Engine {
            board: start_board(),
            search_stopped: true,
            active: true,
            wtime: 0,
            btime: 0,
            movetime: 0,
            depth: 20,
            instant: time_now(),
            nodes: 0,
            hash_table_size_mb: hash_size_in_mb,
            transposition_table: fresh_table(hash_size_in_mb * MB_TO_ITEMS),
            entries_filled: 0,
        }
    }

    /// The engine's current board, for the surrounding process to show.
    pub fn board_handle(&self) -> (r: &pleco::Board)
        ensures
            board_rep(*r) == board_rep(self.board),
    {
        &self.board
    }

    /// Whether the elapsed time of the running search exceeds the move
    /// budget. The clock is outside the verified model, so nothing is
    /// promised of the answer.
    pub(crate) fn out_of_time(&self) -> bool {
        let d = time_elapsed(&self.instant);
        duration_millis(&d) > self.movetime as u128
    }

    /// Clears the per-search command inputs.
    pub fn re_initialize(&mut self)
        ensures
            *final(self) == (Engine { wtime: 0, btime: 0, movetime: 0, nodes: 0, ..*old(self) }),
    {
        self.wtime = 0;
        self.btime = 0;
        self.movetime = 0;
        self.nodes = 0;
    }

    /// Looks the board's position up in the transposition table.
    pub fn transposition_find(&self, board: &pleco::Board) -> (r: TranspositionObject)
        requires
            self.wf(),
        ensures
            r == probe_spec(self.transposition_table@, zobrist_of(board_pos(*board))),
            r.score >= MINIMUM_EVAL,
    {
        let items = self.hash_table_size_mb * MB_TO_ITEMS;
        let hash = crate::board::board_zobrist(board);
        let slot = (hash % (items as u64)) as usize;
        let entry = self.transposition_table[slot];
        if entry.hash != hash {
            TranspositionObject::new()
        } else {
            entry
        }
    }

    /// Overwrites the position's slot with the given search result. The
    /// filled counter grows when the slot was vacant; it saturates rather
    /// than wrap, and nothing reads it back.
    pub fn transposition_store(
        &mut self,
        board: &pleco::Board,
        score: i32,
        best_move: u16,
        depth: u8,
    )
        requires
            old(self).wf(),
            score >= MINIMUM_EVAL,
        ensures
            final(self).wf(),
            final(self).transposition_table@ == store_spec(
                old(self).transposition_table@,
                (TranspositionObject {
                    hash: zobrist_of(board_pos(*board)),
                    score: score,
                    depth: depth,
                    best_move: best_move,
                }),
            ),
            final(self).entries_filled == (if old(self).transposition_table@[tt_slot(
                old(self).transposition_table@,
                zobrist_of(board_pos(*board)),
            )].hash == 0 && old(self).entries_filled < u32::MAX {
                old(self).entries_filled + 1
            } else {
                old(self).entries_filled as int
            }),
            *final(self) == (Engine {
                transposition_table: final (self).transposition_table,
                entries_filled: final (self).entries_filled,
                ..*old(self)
            }),
    {
        let items = self.hash_table_size_mb * MB_TO_ITEMS;
        let hash = crate::board::board_zobrist(board);
        let slot = (hash % (items as u64)) as usize;
        let old_obj = self.transposition_table[slot];
        if old_obj.hash == 0 && self.entries_filled < u32::MAX {
            self.entries_filled = self.entries_filled + 1;
        }
        let entry = TranspositionObject { hash, score, depth, best_move };
        self.transposition_table.set(slot, entry);
    }

    /// Clears the table and reallocates it to the new size in MiB.
    pub fn change_hash_size(&mut self, new_size: usize)
        requires
            MIN_HASH_MB <= new_size <= MAX_HASH_MB,
        ensures
            final(self).wf(),
            final(self).hash_table_size_mb == new_size,
            final(self).transposition_table@.len() == new_size * MB_TO_ITEMS,
            forall|i: int|
                0 <= i < final (self).transposition_table@.len() ==> final (self).transposition_table@[i]
                    == TranspositionObject::vacant(),
            final(self).entries_filled == 0,
            *final(self) == (Engine {
                hash_table_size_mb: new_size,
                transposition_table: final (self).transposition_table,
                entries_filled: 0,
                ..*old(self)
            }),
    {
        self.transposition_table.clear();
        self.hash_table_size_mb = new_size;
        self.transposition_table = fresh_table(new_size * MB_TO_ITEMS);
        self.entries_filled = 0;
    }
}

/// Builds a table of `n` vacant entries.
fn fresh_table(n: usize) -> (r: Vec<TranspositionObject>)
    ensures
        r@.len() == n,
        forall|i: int| 0 <= i < n ==> r@[i] == TranspositionObject::vacant(),
{
    let mut v: Vec<TranspositionObject> = Vec::new();
    let mut k: usize = 0;
    while k < n
        invariant
            k <= n,
            v@.len() == k,
            forall|i: int| 0 <= i < k ==> v@[i] == TranspositionObject::vacant(),
        decreases n - k,
    {
        v.push(TranspositionObject::new());
        k = k + 1;
    }
    v
}

/// Integer square root: the greatest `r` with `r * r <= n`.
pub fn isqrt_u32(n: u32) -> (r: u32)
    ensures
        r * r <= n < (r + 1) * (r + 1),
{
    let mut lo: u32 = 0;
    let mut hi: u32 = 65536;
    while lo + 1 < hi
        invariant
            lo < hi <= 65536,
            lo * lo <= n,
            hi * hi > n,
        decreases hi - lo,
    {
        let mid: u32 = lo + (hi - lo) / 2;
        proof {
            assert(mid < 65536);
            assert(mid * mid < 65536 * 65536) by (nonlinear_arith)
                requires
                    mid < 65536,
            ;
        }
        if mid * mid <= n {
            lo = mid;
        } else {
            hi = mid;
        }
    }
    lo
}

/// The move budget in milliseconds: a `movetime` the line named wins,
/// whatever its value; else ten times the square root of the side to
/// move's clock when either clock was named; else 8000.
pub fn resolve_budget(
    movetime: u32,
    movetime_given: bool,
    wtime: u32,
    btime: u32,
    clock_given: bool,
    white_to_move: bool,
) -> (r: u32)
    ensures
        movetime_given ==> r == movetime,
        !movetime_given && clock_given ==> exists|s: u32|
            {
                let clock = if white_to_move {
                    wtime
                } else {
                    btime
                };
                (#[trigger] (s * s)) <= clock < (s + 1) * (s + 1) && r == 10 * s
            },
        !movetime_given && !clock_given ==> r == 8000,
{
    if movetime_given {
        movetime
    } else if clock_given {
        let clock = if white_to_move {
            wtime
        } else {
            btime
        };
        let s = isqrt_u32(clock);
        proof {
            assert(s <= 65535) by (nonlinear_arith)
                requires
                    s * s <= clock < (s + 1) * (s + 1),
                    clock <= 0xffff_ffffu32,
            ;
        }
        10 * s
    } else {
        8000
    }
}

} // verus!
