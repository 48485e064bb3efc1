//! The move orderer: captures first, then checking moves, then the rest,
//! keeping the generator's order within each class.
use vstd::prelude::*;
use vstd::seq_lib::group_to_multiset_ensures;
use vstd::seq_lib::lemma_multiset_commutative;
use vstd::seq_lib::to_multiset_build;
use crate::board::{board_pos, moves_of, gives_check_of, board_moves, board_gives_check};

verus! {

/// Whether a raw move encoding is a capture: the capture bit of the
/// flag nibble, bit 14.
pub open spec fn is_capture_move(mv: u16) -> bool {
    mv & 0x4000 != 0
}

pub fn is_capture_exec(mv: u16) -> (r: bool)
    ensures
        r == is_capture_move(mv),
{
    mv & 0x4000 != 0
}

/// The ordering key of a move: captures 6, checking moves 5, the rest 0.
pub open spec fn move_key(pos: Seq<u64>, mv: u16) -> int {
    if is_capture_move(mv) {
        6
    } else if gives_check_of(pos, mv) {
        5
    } else {
        0
    }
}

/// Generates the position's moves and reorders them by descending key.
/// The output is a permutation of the generated list.
pub fn gen_and_order_moves(board: &pleco::Board) -> (r: Vec<u16>)
    ensures
        r@.to_multiset() == moves_of(board_pos(*board)).to_multiset(),
        r@.len() == moves_of(board_pos(*board)).len(),
        forall|i: int|
            0 <= i < r@.len() ==> moves_of(board_pos(*board)).contains(#[trigger] r@[i]),
        forall|i: int, j: int|
            0 <= i < j < r@.len() ==> move_key(board_pos(*board), r@[i]) >= move_key(
                board_pos(*board),
                r@[j],
            ),
{
    broadcast use group_to_multiset_ensures;
    broadcast use vstd::multiset::group_multiset_axioms;

    let ghost rep = board_pos(*board);
    let moves = board_moves(board);
    if moves.len() < 2 {
        proof {
            assert(moves@.to_multiset() =~= moves_of(rep).to_multiset());
            assert(forall|i: int|
                0 <= i < moves@.len() ==> moves_of(rep).contains(#[trigger] moves@[i]));
        }
        return moves;
    }
    let mut caps: Vec<u16> = Vec::new();
    let mut checks: Vec<u16> = Vec::new();
    let mut rest: Vec<u16> = Vec::new();
    let mut i: usize = 0;
    while i < moves.len()
        invariant
            i <= moves@.len(),
            moves@ == moves_of(rep),
            rep == board_pos(*board),
            caps@.to_multiset().add(checks@.to_multiset()).add(rest@.to_multiset())
                =~= moves@.take(i as int).to_multiset(),
            forall|k: int| 0 <= k < caps@.len() ==> moves_of(rep).contains(#[trigger] caps@[k]),
            forall|k: int| 0 <= k < checks@.len() ==> moves_of(rep).contains(#[trigger] checks@[k]),
            forall|k: int| 0 <= k < rest@.len() ==> moves_of(rep).contains(#[trigger] rest@[k]),
            forall|k: int| 0 <= k < caps@.len() ==> move_key(rep, #[trigger] caps@[k]) == 6,
            forall|k: int| 0 <= k < checks@.len() ==> move_key(rep, #[trigger] checks@[k]) == 5,
            forall|k: int| 0 <= k < rest@.len() ==> move_key(rep, #[trigger] rest@[k]) == 0,
            caps@.len() + checks@.len() + rest@.len() == i,
        decreases moves@.len() - i,
    {
        let mv = moves[i];
        let ghost caps0 = caps@;
        let ghost checks0 = checks@;
        let ghost rest0 = rest@;
        proof {
            assert(moves@.take(i as int + 1) =~= moves@.take(i as int).push(moves@[i as int]));
        }
        if is_capture_exec(mv) {
            caps.push(mv);
            proof {
                assert(caps@ == caps0.push(mv));
                to_multiset_build(caps0, mv);
            }
        } else if board_gives_check(board, mv) {
            checks.push(mv);
            proof {
                assert(checks@ == checks0.push(mv));
                to_multiset_build(checks0, mv);
            }
        } else {
            rest.push(mv);
            proof {
                assert(rest@ == rest0.push(mv));
                to_multiset_build(rest0, mv);
            }
        }
        proof {
            to_multiset_build(moves@.take(i as int), mv);
            assert(caps@.to_multiset().add(checks@.to_multiset()).add(rest@.to_multiset())
                =~= moves@.take(i as int + 1).to_multiset());
        }
        i = i + 1;
    }
    proof {
        assert(moves@.take(moves@.len() as int) =~= moves@);
    }
    let ghost caps_s = caps@;
    let ghost checks_s = checks@;
    let ghost rest_s = rest@;
    let mut out = caps;
    let mut j: usize = 0;
    while j < checks.len()
        invariant
            j <= checks@.len(),
            checks@ == checks_s,
            out@ == caps_s + checks_s.take(j as int),
        decreases checks@.len() - j,
    {
        out.push(checks[j]);
        proof {
            assert(caps_s + checks_s.take(j as int + 1) =~= (caps_s + checks_s.take(
                j as int,
            )).push(checks_s[j as int]));
        }
        j = j + 1;
    }
    proof {
        assert(checks_s.take(checks_s.len() as int) =~= checks_s);
    }
    let mut k: usize = 0;
    while k < rest.len()
        invariant
            k <= rest@.len(),
            rest@ == rest_s,
            out@ == (caps_s + checks_s) + rest_s.take(k as int),
        decreases rest@.len() - k,
    {
        out.push(rest[k]);
        proof {
            assert((caps_s + checks_s) + rest_s.take(k as int + 1) =~= ((caps_s + checks_s)
                + rest_s.take(k as int)).push(rest_s[k as int]));
        }
        k = k + 1;
    }
    proof {
        assert(rest_s.take(rest_s.len() as int) =~= rest_s);
        assert(out@ == (caps_s + checks_s) + rest_s);
        lemma_multiset_commutative(caps_s + checks_s, rest_s);
        lemma_multiset_commutative(caps_s, checks_s);
        assert(out@.to_multiset() =~= moves_of(rep).to_multiset());
        assert forall|a: int, b: int| 0 <= a < b < out@.len() implies move_key(rep, out@[a])
            >= move_key(rep, out@[b]) by {
            let cl = caps_s.len() as int;
            let hl = checks_s.len() as int;
            assert(out@[a] == if a < cl {
                caps_s[a]
            } else if a < cl + hl {
                checks_s[a - cl]
            } else {
                rest_s[a - cl - hl]
            });
            assert(out@[b] == if b < cl {
                caps_s[b]
            } else if b < cl + hl {
                checks_s[b - cl]
            } else {
                rest_s[b - cl - hl]
            });
        }
    }
    out
}

} // verus!
