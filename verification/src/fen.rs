//! The guard in front of the FEN parser: the sufficient syntactic checks
//! under which handing a FEN line to the outside parser is safe. A line
//! the guard rejects is treated like one the parser rejects: the start
//! position takes its place.
use vstd::prelude::*;
use crate::text::{split_spec, split_from, parses_uint, parsed_uint, uint_parses, parse_uint};

verus! {

/// A byte the guard lets into a FEN line: plain ASCII, with the space
/// as the only whitespace, so the parser splits the line exactly at the
/// spaces the guard saw.
pub open spec fn fen_byte_ok(c: u8) -> bool {
    c < 128 && c != 9 && c != 10 && c != 11 && c != 12 && c != 13
}

/// The whitespace-separated fields of a FEN line: the nonempty parts of
/// a split at every space.
pub open spec fn nonempty_fields(parts: Seq<Seq<u8>>) -> Seq<Seq<u8>>
    decreases parts.len(),
{
    if parts.len() == 0 {
        seq![]
    } else if parts[0].len() == 0 {
        nonempty_fields(parts.drop_first())
    } else {
        seq![parts[0]] + nonempty_fields(parts.drop_first())
    }
}

pub open spec fn fen_fields(s: Seq<u8>) -> Seq<Seq<u8>> {
    nonempty_fields(split_spec(s))
}

/// How many squares one character of a placement row stands for: its
/// value for a digit, one for anything else.
pub open spec fn row_value(c: u8) -> int {
    if 48 <= c <= 57 {
        (c - 48) as int
    } else {
        1
    }
}

/// Scans a placement field left to right: within each `/`-separated
/// row, every character after the first must find at most 7 squares
/// consumed before it, which is where the parser's own bounds check
/// still names a real square.
pub open spec fn rows_ok_from(f: Seq<u8>, i: int, consumed: int, at_row_start: bool) -> bool
    decreases f.len() - i,
{
    if i < 0 || i >= f.len() {
        true
    } else if f[i] == 47 {
        rows_ok_from(f, i + 1, 0, true)
    } else if !at_row_start && consumed > 7 {
        false
    } else {
        rows_ok_from(f, i + 1, consumed + row_value(f[i]), false)
    }
}

/// The letters a castling field may carry.
pub open spec fn castle_field_ok(f: Seq<u8>) -> bool {
    forall|i: int|
        0 <= i < f.len() ==> (#[trigger] f[i]) == 75 || f[i] == 81 || f[i] == 107 || f[i] == 113
            || f[i] == 45
}

/// A full-move field the parser survives: a dash, something that is no
/// number at all (the parser rejects it in an orderly way), or a count
/// between 1 and 32768, whose internal doubling stays in range.
pub open spec fn fullmove_field_ok(f: Seq<u8>) -> bool {
    ||| f == seq![45u8]
    ||| !parses_uint(f, 65535)
    ||| (1 <= parsed_uint(f, 65535) <= 32768)
}

/// The FEN lines that are handed to the outside parser: everything else
/// falls back to the start position before the parser sees it.
pub open spec fn fen_ok_spec(s: Seq<u8>) -> bool {
    let fs = fen_fields(s);
    &&& (forall|i: int| 0 <= i < s.len() ==> fen_byte_ok(#[trigger] s[i]))
    &&& (fs.len() >= 1 ==> rows_ok_from(fs[0], 0, 0, true) && fs[0].contains(75u8)
        && fs[0].contains(107u8))
    &&& (fs.len() >= 3 ==> castle_field_ok(fs[2]))
    &&& (fs.len() >= 6 ==> fullmove_field_ok(fs[5]))
}

fn contains_byte(v: &Vec<u8>, b: u8) -> (r: bool)
    ensures
        r == v@.contains(b),
{
    let mut i: usize = 0;
    while i < v.len()
        invariant
            i <= v@.len(),
            forall|k: int| 0 <= k < i ==> v@[k] != b,
        decreases v@.len() - i,
    {
        if v[i] == b {
            return true;
        }
        i = i + 1;
    }
    false
}

fn rows_ok_exec(f: &Vec<u8>) -> (r: bool)
    ensures
        r == rows_ok_from(f@, 0, 0, true),
{
    let mut i: usize = 0;
    let mut consumed: u32 = 0;
    let mut at_row_start = true;
    while i < f.len()
        invariant
            i <= f@.len(),
            consumed <= 16,
            at_row_start ==> consumed == 0,
            rows_ok_from(f@, 0, 0, true) == rows_ok_from(
                f@,
                i as int,
                consumed as int,
                at_row_start,
            ),
        decreases f@.len() - i,
    {
        let c = f[i];
        let ghost pre_consumed = consumed as int;
        let ghost pre_at = at_row_start;
        if c == 47 {
            consumed = 0;
            at_row_start = true;
        } else if !at_row_start && consumed > 7 {
            proof {
                assert(!rows_ok_from(f@, i as int, pre_consumed, pre_at));
            }
            return false;
        } else {
            let v: u32 = if 48 <= c && c <= 57 {
                (c - 48) as u32
            } else {
                1
            };
            consumed = consumed + v;
            at_row_start = false;
        }
        proof {
            assert(rows_ok_from(f@, i as int, pre_consumed, pre_at) == rows_ok_from(
                f@,
                i as int + 1,
                consumed as int,
                at_row_start,
            ));
        }
        i = i + 1;
    }
    true
}

fn castle_ok_exec(f: &Vec<u8>) -> (r: bool)
    ensures
        r == castle_field_ok(f@),
{
    let mut i: usize = 0;
    while i < f.len()
        invariant
            i <= f@.len(),
            forall|k: int|
                0 <= k < i ==> (#[trigger] f@[k]) == 75 || f@[k] == 81 || f@[k] == 107 || f@[k]
                    == 113 || f@[k] == 45,
        decreases f@.len() - i,
    {
        let c = f[i];
        if !(c == 75 || c == 81 || c == 107 || c == 113 || c == 45) {
            return false;
        }
        i = i + 1;
    }
    true
}

fn fullmove_ok_exec(f: &Vec<u8>) -> (r: bool)
    ensures
        r == fullmove_field_ok(f@),
{
    if f.len() == 1 && f[0] == 45 {
        proof {
            assert(f@ =~= seq![45u8]);
        }
        return true;
    }
    proof {
        assert(f@ != seq![45u8]);
    }
    if !uint_parses(f, 65535) {
        return true;
    }
    let v = parse_uint(f, 65535);
    1 <= v && v <= 32768
}

/// Whether the guard lets a FEN line through to the outside parser.
pub fn fen_acceptable(fen: &Vec<u8>) -> (r: bool)
    ensures
        r == fen_ok_spec(fen@),
{
    let mut i: usize = 0;
    while i < fen.len()
        invariant
            i <= fen@.len(),
            forall|k: int| 0 <= k < i ==> fen_byte_ok(#[trigger] fen@[k]),
        decreases fen@.len() - i,
    {
        let c = fen[i];
        if !(c < 128 && c != 9 && c != 10 && c != 11 && c != 12 && c != 13) {
            return false;
        }
        i = i + 1;
    }
    let parts = split_from(fen, 0);
    proof {
        assert(fen@.subrange(0, fen@.len() as int) =~= fen@);
    }
    let ghost partsv = split_spec(fen@);
    let mut fields: Vec<Vec<u8>> = Vec::new();
    let mut j: usize = 0;
    proof {
        assert(partsv.skip(0) =~= partsv);
        assert(fields@.map_values(|t: Vec<u8>| t@) =~= Seq::<Seq<u8>>::empty());
    }
    while j < parts.len()
        invariant
            j <= parts@.len(),
            parts@.map_values(|t: Vec<u8>| t@) == partsv,
            partsv == split_spec(fen@),
            nonempty_fields(partsv) == fields@.map_values(|t: Vec<u8>| t@) + nonempty_fields(
                partsv.skip(j as int),
            ),
        decreases parts@.len() - j,
    {
        let ghost pre = fields@.map_values(|t: Vec<u8>| t@);
        proof {
            assert(partsv.skip(j as int).drop_first() =~= partsv.skip(j as int + 1));
            assert(partsv.skip(j as int)[0] == partsv[j as int]);
            assert(partsv[j as int] == (#[trigger] parts@[j as int])@);
        }
        if parts[j].len() > 0 {
            let field = parts[j].clone();
            proof {
                assert(field@ == parts@[j as int]@);
            }
            fields.push(field);
            proof {
                assert(fields@.map_values(|t: Vec<u8>| t@) =~= pre + seq![partsv[j as int]]);
                assert(pre + (seq![partsv[j as int]] + nonempty_fields(
                    partsv.skip(j as int + 1),
                )) =~= (pre + seq![partsv[j as int]]) + nonempty_fields(partsv.skip(j as int + 1)));
            }
        }
        j = j + 1;
    }
    proof {
        assert(partsv.skip(partsv.len() as int) =~= Seq::<Seq<u8>>::empty());
        assert(nonempty_fields(partsv) =~= fields@.map_values(|t: Vec<u8>| t@));
        assert(forall|q: int|
            0 <= q < fields@.len() ==> fen_fields(fen@)[q] == (#[trigger] fields@[q])@);
    }
    if fields.len() >= 1 {
        if !rows_ok_exec(&fields[0]) {
            return false;
        }
        if !contains_byte(&fields[0], 75) {
            return false;
        }
        if !contains_byte(&fields[0], 107) {
            return false;
        }
    }
    if fields.len() >= 3 {
        if !castle_ok_exec(&fields[2]) {
            return false;
        }
    }
    if fields.len() >= 6 {
        if !fullmove_ok_exec(&fields[5]) {
            return false;
        }
    }
    true
}

} // verus!
