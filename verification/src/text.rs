//! Plain-text building blocks of the protocol: long-algebraic move text,
//! decimal rendering of counters and scores, decimal parsing of command
//! operands, and the whitespace handling of command lines.
use vstd::prelude::*;

verus! {

/// The source square of a raw move encoding: bits 0 through 5.
pub open spec fn move_src(mv: u16) -> u16 {
    mv & 63
}

/// The destination square of a raw move encoding: bits 6 through 11.
pub open spec fn move_dst(mv: u16) -> u16 {
    (mv >> 6) & 63
}

/// Whether a raw move is a castle: its top three bits read 001.
pub open spec fn move_is_castle(mv: u16) -> bool {
    mv >> 13 == 1
}

/// Whether a raw move is a promotion: bit 15.
pub open spec fn move_is_promo(mv: u16) -> bool {
    mv & 0x8000 != 0
}

/// The letter of the promotion piece, from the low two flag bits:
/// knight, bishop, rook or queen.
pub open spec fn promo_letter(mv: u16) -> u8 {
    let p = (mv >> 12) & 3;
    if p == 0 {
        'n' as u8
    } else if p == 1 {
        'b' as u8
    } else if p == 2 {
        'r' as u8
    } else {
        'q' as u8
    }
}

/// The two-character name of a square: file letter, then rank digit.
pub open spec fn square_name(sq: int) -> Seq<u8> {
    seq![('a' as u8 + sq % 8) as u8, ('1' as u8 + sq / 8) as u8]
}

/// The long-algebraic text of a raw move: source square, destination
/// square, and the promotion letter if any. A castle is encoded with the
/// rook's corner as destination and prints the king's target square.
pub open spec fn move_text_spec(mv: u16) -> Seq<u8> {
    let src = square_name(move_src(mv) as int);
    let d = move_dst(mv) as int;
    let dst = if move_is_castle(mv) {
        if d == 0 {
            seq!['c' as u8, '1' as u8]
        } else if d == 7 {
            seq!['g' as u8, '1' as u8]
        } else if d == 56 {
            seq!['c' as u8, '8' as u8]
        } else if d == 63 {
            seq!['g' as u8, '8' as u8]
        } else {
            square_name(d)
        }
    } else {
        square_name(d)
    };
    if move_is_promo(mv) {
        (src + dst).push(promo_letter(mv))
    } else {
        src + dst
    }
}

fn push_square_name(out: &mut Vec<u8>, sq: u16)
    requires
        sq < 64,
    ensures
        final(out)@ == old(out)@ + square_name(sq as int),
{
    let file = (sq % 8) as u8;
    let rank = (sq / 8) as u8;
    out.push(97 + file);
    out.push(49 + rank);
    proof {
        assert(out@ =~= old(out)@ + square_name(sq as int));
    }
}

/// Renders a raw move in the long-algebraic coordinate notation.
pub fn move_text(mv: u16) -> (r: Vec<u8>)
    ensures
        r@ == move_text_spec(mv),
{
    let mut out: Vec<u8> = Vec::new();
    let src = mv & 63;
    let d = (mv >> 6) & 63;
    proof {
        assert(src < 64 && d < 64) by (bit_vector)
            requires
                src == mv & 63 && d == (mv >> 6) & 63,
        ;
    }
    push_square_name(&mut out, src);
    if mv >> 13 == 1 {
        if d == 0 {
            out.push(99);
            out.push(49);
        } else if d == 7 {
            out.push(103);
            out.push(49);
        } else if d == 56 {
            out.push(99);
            out.push(56);
        } else if d == 63 {
            out.push(103);
            out.push(56);
        } else {
            push_square_name(&mut out, d);
        }
    } else {
        push_square_name(&mut out, d);
    }
    if mv & 0x8000 != 0 {
        let p = (mv >> 12) & 3;
        if p == 0 {
            out.push(110);
        } else if p == 1 {
            out.push(98);
        } else if p == 2 {
            out.push(114);
        } else {
            out.push(113);
        }
    }
    proof {
        assert(out@ =~= move_text_spec(mv));
    }
    out
}

/// The decimal digits of a non-negative number, empty for zero.
pub open spec fn dec_digits(n: int) -> Seq<u8>
    decreases n,
{
    if n <= 0 {
        seq![]
    } else {
        dec_digits(n / 10).push(('0' as u8 + n % 10) as u8)
    }
}

/// The decimal text of a number, with a leading minus when negative.
pub open spec fn dec_text(n: int) -> Seq<u8> {
    if n == 0 {
        seq!['0' as u8]
    } else if n < 0 {
        seq!['-' as u8] + dec_digits(-n)
    } else {
        dec_digits(n)
    }
}

fn push_dec_digits(out: &mut Vec<u8>, n: u128)
    ensures
        final(out)@ == old(out)@ + dec_digits(n as int),
    decreases n,
{
    if n == 0 {
        proof {
            assert(out@ =~= old(out)@ + dec_digits(0));
        }
        return ;
    }
    push_dec_digits(out, n / 10);
    out.push(48 + (n % 10) as u8);
    proof {
        assert(out@ =~= old(out)@ + dec_digits(n as int));
    }
}

/// Appends the decimal text of an unsigned number.
pub fn push_u128_text(out: &mut Vec<u8>, n: u128)
    ensures
        final(out)@ == old(out)@ + dec_text(n as int),
{
    if n == 0 {
        out.push(48);
        proof {
            assert(out@ =~= old(out)@ + dec_text(0));
        }
    } else {
        push_dec_digits(out, n);
    }
}

/// Appends the decimal text of a signed score.
pub fn push_i32_text(out: &mut Vec<u8>, n: i32)
    ensures
        final(out)@ == old(out)@ + dec_text(n as int),
{
    let ghost pre = out@;
    if n == 0 {
        out.push(48);
        proof {
            assert(out@ =~= pre + dec_text(0));
        }
    } else if n < 0 {
        out.push(45);
        let m: u128 = (-(n as i64)) as u128;
        push_dec_digits(out, m);
        proof {
            assert(out@ =~= pre + dec_text(n as int));
        }
    } else {
        push_dec_digits(out, n as u128);
    }
}

/// Whether a byte is an ASCII decimal digit.
pub open spec fn is_digit(c: u8) -> bool {
    '0' as u8 <= c <= '9' as u8
}

pub open spec fn all_digits(s: Seq<u8>) -> bool {
    forall|i: int| 0 <= i < s.len() ==> is_digit(#[trigger] s[i])
}

/// The value of a digit string, most significant first.
pub open spec fn digits_val(s: Seq<u8>) -> int
    decreases s.len(),
{
    if s.len() == 0 {
        0
    } else {
        digits_val(s.drop_last()) * 10 + (s.last() - 48)
    }
}

/// The digits of an unsigned decimal token: everything after an optional
/// leading plus sign.
pub open spec fn uint_body(s: Seq<u8>) -> Seq<u8> {
    if s.len() > 0 && s[0] == '+' as u8 {
        s.subrange(1, s.len() as int)
    } else {
        s
    }
}

/// Whether a token parses as an unsigned number no greater than `max`:
/// an optional plus sign, then at least one digit, value in range.
pub open spec fn parses_uint(s: Seq<u8>, max: int) -> bool {
    uint_body(s).len() > 0 && all_digits(uint_body(s)) && digits_val(uint_body(s)) <= max
}

/// The number a token stands for, or 0 when it does not parse: the
/// behaviour of `str::parse` followed by `unwrap_or_default`.
pub open spec fn parsed_uint(s: Seq<u8>, max: int) -> int {
    if parses_uint(s, max) {
        digits_val(uint_body(s))
    } else {
        0
    }
}

proof fn lemma_digits_val_nonneg(s: Seq<u8>)
    requires
        all_digits(s),
    ensures
        digits_val(s) >= 0,
    decreases s.len(),
{
    if s.len() > 0 {
        assert(all_digits(s.drop_last()));
        lemma_digits_val_nonneg(s.drop_last());
    }
}

/// Parses a token as an unsigned number capped at `max`, yielding 0 for
/// anything that does not parse or does not fit.
pub fn parse_uint(token: &Vec<u8>, max: u32) -> (r: u32)
    ensures
        r as int == parsed_uint(token@, max as int),
        r <= max,
{
    let ghost body = uint_body(token@);
    let start: usize = if token.len() > 0 && token[0] == 43 {
        1
    } else {
        0
    };
    proof {
        assert(body =~= token@.subrange(start as int, token@.len() as int));
    }
    if token.len() == start {
        return 0;
    }
    let mut acc: u64 = 0;
    let mut too_big = false;
    let mut i: usize = start;
    while i < token.len()
        invariant
            start <= i <= token@.len(),
            body == uint_body(token@),
            body == token@.subrange(start as int, token@.len() as int),
            body.len() == token@.len() - start,
            forall|k: int| 0 <= k < i - start ==> is_digit(#[trigger] body[k]),
            !too_big ==> acc as int == digits_val(body.take(i - start)) && acc <= max,
            too_big ==> digits_val(body.take(i - start)) > max,
        decreases token@.len() - i,
    {
        let c = token[i];
        if c < 48 || c > 57 {
            proof {
                assert(body[i - start] == c);
                assert(!all_digits(body));
            }
            return 0;
        }
        let d = (c - 48) as u64;
        proof {
            assert(body.take(i + 1 - start).drop_last() =~= body.take(i - start));
            assert(body.take(i + 1 - start).last() == c);
        }
        if !too_big {
            acc = acc * 10 + d;
            if acc > max as u64 {
                too_big = true;
            }
        } else {
            proof {
                let ghost j = i - start;
                assert(all_digits(body.take(j)) && all_digits(body.take(j + 1)));
                lemma_digits_val_nonneg(body.take(j));
                assert(digits_val(body.take(j + 1)) == digits_val(body.take(j)) * 10 + (c
                    - 48));
            }
        }
        i = i + 1;
    }
    proof {
        assert(body.take(token@.len() - start) =~= body);
    }
    if too_big {
        return 0;
    }
    acc as u32
}

/// Whether a token parses as an unsigned number no greater than `max`.
pub fn uint_parses(token: &Vec<u8>, max: u32) -> (r: bool)
    ensures
        r == parses_uint(token@, max as int),
{
    let ghost body = uint_body(token@);
    let start: usize = if token.len() > 0 && token[0] == 43 {
        1
    } else {
        0
    };
    proof {
        assert(body =~= token@.subrange(start as int, token@.len() as int));
    }
    if token.len() == start {
        return false;
    }
    let mut acc: u64 = 0;
    let mut too_big = false;
    let mut i: usize = start;
    while i < token.len()
        invariant
            start <= i <= token@.len(),
            body == uint_body(token@),
            body == token@.subrange(start as int, token@.len() as int),
            body.len() == token@.len() - start,
            forall|k: int| 0 <= k < i - start ==> is_digit(#[trigger] body[k]),
            !too_big ==> acc as int == digits_val(body.take(i - start)) && acc <= max,
            too_big ==> digits_val(body.take(i - start)) > max,
        decreases token@.len() - i,
    {
        let c = token[i];
        if c < 48 || c > 57 {
            proof {
                assert(body[i - start] == c);
                assert(!all_digits(body));
            }
            return false;
        }
        let d = (c - 48) as u64;
        proof {
            assert(body.take(i + 1 - start).drop_last() =~= body.take(i - start));
            assert(body.take(i + 1 - start).last() == c);
        }
        if !too_big {
            acc = acc * 10 + d;
            if acc > max as u64 {
                too_big = true;
            }
        } else {
            proof {
                let ghost j = i - start;
                assert(all_digits(body.take(j)) && all_digits(body.take(j + 1)));
                lemma_digits_val_nonneg(body.take(j));
                assert(digits_val(body.take(j + 1)) == digits_val(body.take(j)) * 10 + (c
                    - 48));
            }
        }
        i = i + 1;
    }
    proof {
        assert(body.take(token@.len() - start) =~= body);
    }
    !too_big
}

/// Whether a byte is one of the ASCII whitespace characters a command
/// line can carry: space, tab, carriage return, line feed.
pub open spec fn is_space_byte(c: u8) -> bool {
    c == 32 || c == 9 || c == 13 || c == 10
}

/// A line with its leading whitespace removed.
pub open spec fn trim_start_spec(s: Seq<u8>) -> Seq<u8>
    decreases s.len(),
{
    if s.len() > 0 && is_space_byte(s[0]) {
        trim_start_spec(s.subrange(1, s.len() as int))
    } else {
        s
    }
}

/// A line with its trailing whitespace removed.
pub open spec fn trim_end_spec(s: Seq<u8>) -> Seq<u8>
    decreases s.len(),
{
    if s.len() > 0 && is_space_byte(s.last()) {
        trim_end_spec(s.drop_last())
    } else {
        s
    }
}

/// A line with whitespace removed at both ends.
pub open spec fn trim_spec(s: Seq<u8>) -> Seq<u8> {
    trim_end_spec(trim_start_spec(s))
}

/// The fields of a line split at every single space, empty fields kept.
pub open spec fn split_spec(s: Seq<u8>) -> Seq<Seq<u8>>
    decreases s.len(),
{
    if s.len() == 0 {
        seq![seq![]]
    } else if s[0] == 32 {
        seq![Seq::<u8>::empty()] + split_spec(s.subrange(1, s.len() as int))
    } else {
        let rest = split_spec(s.subrange(1, s.len() as int));
        rest.update(0, seq![s[0]] + rest[0])
    }
}

pub proof fn lemma_split_nonempty(s: Seq<u8>)
    ensures
        split_spec(s).len() >= 1,
    decreases s.len(),
{
    if s.len() > 0 {
        lemma_split_nonempty(s.subrange(1, s.len() as int));
    }
}

pub fn trim_bytes(line: &Vec<u8>) -> (r: Vec<u8>)
    ensures
        r@ == trim_spec(line@),
{
    let mut start: usize = 0;
    proof {
        assert(line@.subrange(0, line@.len() as int) =~= line@);
    }
    while start < line.len() && (line[start] == 32 || line[start] == 9 || line[start] == 13
        || line[start] == 10)
        invariant
            start <= line@.len(),
            trim_start_spec(line@) == trim_start_spec(line@.subrange(
                start as int,
                line@.len() as int,
            )),
        decreases line@.len() - start,
    {
        proof {
            let tail = line@.subrange(start as int, line@.len() as int);
            assert(tail.subrange(1, tail.len() as int) =~= line@.subrange(
                start as int + 1,
                line@.len() as int,
            ));
        }
        start = start + 1;
    }
    let mut end: usize = line.len();
    proof {
        let tail = line@.subrange(start as int, line@.len() as int);
        assert(trim_start_spec(tail) =~= tail);
    }
    while end > start && (line[end - 1] == 32 || line[end - 1] == 9 || line[end - 1] == 13
        || line[end - 1] == 10)
        invariant
            start <= end <= line@.len(),
            trim_start_spec(line@) == line@.subrange(start as int, line@.len() as int),
            trim_spec(line@) == trim_end_spec(line@.subrange(start as int, end as int)),
        decreases end,
    {
        proof {
            let cur = line@.subrange(start as int, end as int);
            assert(cur.drop_last() =~= line@.subrange(start as int, end as int - 1));
        }
        end = end - 1;
    }
    proof {
        let cur = line@.subrange(start as int, end as int);
        assert(trim_end_spec(cur) =~= cur);
    }
    let mut out: Vec<u8> = Vec::new();
    let mut i: usize = start;
    while i < end
        invariant
            start <= i <= end <= line@.len(),
            out@ =~= line@.subrange(start as int, i as int),
        decreases end - i,
    {
        out.push(line[i]);
        proof {
            assert(out@ =~= line@.subrange(start as int, i as int + 1));
        }
        i = i + 1;
    }
    proof {
        assert(out@ =~= trim_spec(line@));
    }
    out
}

pub(crate) fn split_from(s: &Vec<u8>, i: usize) -> (r: Vec<Vec<u8>>)
    requires
        i <= s@.len(),
    ensures
        r@.map_values(|t: Vec<u8>| t@) == split_spec(s@.subrange(i as int, s@.len() as int)),
        r@.len() >= 1,
    decreases s@.len() - i,
{
    let ghost tail = s@.subrange(i as int, s@.len() as int);
    if i == s.len() {
        let mut r: Vec<Vec<u8>> = Vec::new();
        r.push(Vec::new());
        proof {
            assert(tail =~= Seq::<u8>::empty());
            assert(r@.map_values(|t: Vec<u8>| t@) =~= split_spec(tail));
        }
        r
    } else {
        proof {
            assert(tail.subrange(1, tail.len() as int) =~= s@.subrange(
                i as int + 1,
                s@.len() as int,
            ));
            assert(tail[0] == s@[i as int]);
        }
        let c = s[i];
        let mut rest = split_from(s, i + 1);
        if c == 32 {
            rest.insert(0, Vec::new());
            proof {
                assert(rest@.map_values(|t: Vec<u8>| t@) =~= split_spec(tail));
            }
            rest
        } else {
            let mut first = rest.remove(0);
            first.insert(0, c);
            rest.insert(0, first);
            proof {
                let inner = split_spec(s@.subrange(i as int + 1, s@.len() as int));
                assert(first@ =~= seq![c] + inner[0]);
                assert(rest@.map_values(|t: Vec<u8>| t@) =~= inner.update(0, seq![c] + inner[0]));
                assert(rest@.map_values(|t: Vec<u8>| t@) =~= split_spec(tail));
            }
            rest
        }
    }
}

/// What a command line becomes before dispatch: trimmed at both ends,
/// then split at every single space, empty fields kept.
pub open spec fn tokens_spec(line: Seq<u8>) -> Seq<Seq<u8>> {
    split_spec(trim_spec(line))
}

/// Splits a trimmed command line into its fields.
pub fn tokenize(line: &Vec<u8>) -> (r: Vec<Vec<u8>>)
    ensures
        r@.map_values(|t: Vec<u8>| t@) == tokens_spec(line@),
        r@.len() >= 1,
{
    let trimmed = trim_bytes(line);
    let r = split_from(&trimmed, 0);
    proof {
        assert(trimmed@.subrange(0, trimmed@.len() as int) =~= trimmed@);
    }
    r
}

} // verus!
