//! The dictionary codec of the non-block formats, and its additive checksum.
//!
//! A stream is a sequence of groups. A group is a flag byte followed by up to
//! eight items, one per flag bit, lowest bit first. A set bit announces one
//! literal byte. A clear bit announces a two-byte pointer: the first byte and
//! the high nibble of the second give a distance back from the end of the
//! output (1 to 4095), the low nibble of the second plus three gives the
//! number of bytes to copy (3 to 18). A source position before the start of
//! the output reads as a space. The stream ends where the input ends.
//!
//! The encoder goes through the input once. It remembers, in one of 4096
//! buckets, where it last stood before the same three bytes, and writes a
//! pointer to that place where it is near enough and three bytes or more
//! agree, else a literal. [`spec_lzss_encode`] is the stream it makes.

use vstd::prelude::*;
use crate::bytes::as_signed;
use crate::error::{PaaError, PaaResult};
use crate::lzss_proofs::{lemma_stream_expands, lemma_tokens_rebuild};

verus! {

/// One item of a stream.
pub enum LzssToken {
    /// One byte taken as it is.
    Literal(u8),
    /// `len` bytes, each copied from `dist` bytes before the end of the output.
    Copy { dist: u16, len: u8 },
}

/// `2^n`.
pub open spec fn pow2(n: nat) -> nat
    decreases n,
{
    if n == 0 {
        1
    } else {
        2 * pow2((n - 1) as nat)
    }
}

/// The output after copying `len` bytes, one at a time, each from `dist`
/// bytes before the end.
pub open spec fn copy_back(out: Seq<u8>, dist: int, len: nat) -> Seq<u8>
    decreases len,
{
    if len == 0 {
        out
    } else {
        let p = out.len() - dist;
        copy_back(
            out.push(
                if 0 <= p < out.len() {
                    out[p]
                } else {
                    0x20u8
                },
            ),
            dist,
            (len - 1) as nat,
        )
    }
}

/// Distance encoded by the two bytes of a pointer.
pub open spec fn pointer_dist(b0: u8, b1: u8) -> int {
    b0 as int + 256 * (b1 as int / 16)
}

/// Length encoded by the second byte of a pointer.
pub open spec fn pointer_len(b1: u8) -> nat {
    (b1 as int % 16 + 3) as nat
}

/// What the rest `s` of a stream adds to the output `out`, where `k` bits of
/// the current flag byte have been used and `flags` holds the others, lowest
/// first. `None` where a pointer is cut short or has distance zero.
pub open spec fn lzss_expand(s: Seq<u8>, flags: nat, k: nat, out: Seq<u8>) -> Option<Seq<u8>>
    decreases s.len(),
{
    if s.len() == 0 {
        Some(out)
    } else if k >= 8 {
        lzss_expand(s.skip(1), s[0] as nat, 0, out)
    } else if flags % 2 == 1 {
        lzss_expand(s.skip(1), flags / 2, k + 1, out.push(s[0]))
    } else if s.len() < 2 || pointer_dist(s[0], s[1]) == 0 {
        None
    } else {
        lzss_expand(
            s.skip(2),
            flags / 2,
            k + 1,
            copy_back(out, pointer_dist(s[0], s[1]), pointer_len(s[1])),
        )
    }
}

/// What a whole stream expands to.
pub open spec fn spec_lzss_decode(s: Seq<u8>) -> Option<Seq<u8>> {
    lzss_expand(s, 0, 8, Seq::<u8>::empty())
}

/// Sum of the bytes of `d`.
pub open spec fn byte_sum(d: Seq<u8>) -> nat
    decreases d.len(),
{
    if d.len() == 0 {
        0
    } else {
        byte_sum(d.drop_last()) + d.last() as nat
    }
}

/// The additive checksum: the sum of the bytes modulo `2^32`, read as a
/// signed number.
pub open spec fn spec_additive_checksum(d: Seq<u8>) -> i32 {
    as_signed((byte_sum(d) % 0x1_0000_0000) as u32)
}

/// Whether an item can be written: a pointer goes back 1 to 4095 bytes and
/// copies 3 to 18.
pub open spec fn token_valid(t: LzssToken) -> bool {
    match t {
        LzssToken::Literal(_) => true,
        LzssToken::Copy { dist, len } => 1 <= dist <= 4095 && 3 <= len <= 18,
    }
}

/// Whether every item of `ts` can be written.
pub open spec fn tokens_valid(ts: Seq<LzssToken>) -> bool {
    forall|j: int| 0 <= j < ts.len() ==> token_valid(#[trigger] ts[j])
}

/// The bytes of one item.
pub open spec fn token_bytes(t: LzssToken) -> Seq<u8> {
    match t {
        LzssToken::Literal(b) => seq![b],
        LzssToken::Copy { dist, len } => seq![
            (dist as int % 256) as u8,
            ((dist as int / 256) * 16 + (len as int - 3)) as u8,
        ],
    }
}

/// The flag bit of one item.
pub open spec fn token_flag(t: LzssToken) -> nat {
    match t {
        LzssToken::Literal(_) => 1,
        LzssToken::Copy { .. } => 0,
    }
}

/// The output after one item.
pub open spec fn apply_token(out: Seq<u8>, t: LzssToken) -> Seq<u8> {
    match t {
        LzssToken::Literal(b) => out.push(b),
        LzssToken::Copy { dist, len } => copy_back(out, dist as int, len as nat),
    }
}

/// The output after the items `ts` in turn.
pub open spec fn apply_tokens(out: Seq<u8>, ts: Seq<LzssToken>) -> Seq<u8>
    decreases ts.len(),
{
    if ts.len() == 0 {
        out
    } else {
        apply_token(apply_tokens(out, ts.drop_last()), ts.last())
    }
}

/// The bytes of the items `ts` in turn.
pub open spec fn tokens_bytes(ts: Seq<LzssToken>) -> Seq<u8>
    decreases ts.len(),
{
    if ts.len() == 0 {
        Seq::<u8>::empty()
    } else {
        tokens_bytes(ts.drop_last()) + token_bytes(ts.last())
    }
}

/// The flag bits of the items `ts`, the first item in the lowest bit.
pub open spec fn tokens_flags(ts: Seq<LzssToken>) -> nat
    decreases ts.len(),
{
    if ts.len() == 0 {
        0
    } else {
        tokens_flags(ts.drop_last()) + token_flag(ts.last()) * pow2((ts.len() - 1) as nat)
    }
}

/// The bytes of one group.
pub open spec fn group_bytes(ts: Seq<LzssToken>) -> Seq<u8> {
    seq![tokens_flags(ts) as u8] + tokens_bytes(ts)
}

proof fn lemma_pow2_values()
    ensures
        pow2(0) == 1,
        pow2(1) == 2,
        pow2(2) == 4,
        pow2(3) == 8,
        pow2(4) == 16,
        pow2(5) == 32,
        pow2(6) == 64,
        pow2(7) == 128,
        pow2(8) == 256,
{
    reveal_with_fuel(pow2, 10);
}

proof fn lemma_tokens_flags_bound(ts: Seq<LzssToken>)
    ensures
        tokens_flags(ts) < pow2(ts.len()),
    decreases ts.len(),
{
    if ts.len() > 0 {
        lemma_tokens_flags_bound(ts.drop_last());
        let p = pow2((ts.len() - 1) as nat);
        assert(pow2(ts.len()) == 2 * p);
        assert(token_flag(ts.last()) <= 1);
        assert(token_flag(ts.last()) * p <= p) by (nonlinear_arith)
            requires
                token_flag(ts.last()) <= 1,
        ;
    }
}

/// Reading the pointer written for a valid copy gives its distance and length.
proof fn lemma_pointer_round_trip(dist: u16, len: u8)
    requires
        1 <= dist <= 4095,
        3 <= len <= 18,
    ensures
        ({
            let b = token_bytes(LzssToken::Copy { dist, len });
            pointer_dist(b[0], b[1]) == dist && pointer_len(b[1]) == len
        }),
{
    let d = dist as int;
    let l = len as int;
    let b1 = (d / 256) * 16 + (l - 3);
    assert(0 <= d / 256 <= 15);
    assert(0 <= b1 <= 255);
    assert(b1 / 16 == d / 256);
    assert(b1 % 16 == l - 3);
}

/// The decoder, given the bytes of the items `ts` of one group followed by
/// `rest`, ends up where it would after those items.
proof fn lemma_expand_tokens(
    ts: Seq<LzssToken>,
    rest: Seq<u8>,
    high: nat,
    k: nat,
    out: Seq<u8>,
)
    requires
        tokens_valid(ts),
        k + ts.len() <= 8,
    ensures
        lzss_expand(tokens_bytes(ts) + rest, tokens_flags(ts) + pow2(ts.len()) * high, k, out)
            == lzss_expand(rest, high, k + ts.len(), apply_tokens(out, ts)),
    decreases ts.len(),
{
    if ts.len() == 0 {
        assert(tokens_bytes(ts) + rest =~= rest);
        assert(pow2(0) * high == high) by (nonlinear_arith)
            requires
                pow2(0) == 1,
        ;
    } else {
        let front = ts.drop_last();
        let t = ts.last();
        let p = pow2(front.len());
        let high1 = token_flag(t) + 2 * high;
        let rest1 = token_bytes(t) + rest;
        assert(tokens_valid(front)) by {
            assert forall|j: int| 0 <= j < front.len() implies token_valid(#[trigger] front[j]) by {
                assert(front[j] == ts[j]);
            }
        }
        assert(token_valid(t));
        assert(tokens_bytes(ts) + rest =~= tokens_bytes(front) + rest1);
        assert(pow2(ts.len()) == 2 * p);
        assert(tokens_flags(ts) + pow2(ts.len()) * high == tokens_flags(front) + p * high1)
            by (nonlinear_arith)
            requires
                tokens_flags(ts) == tokens_flags(front) + token_flag(t) * p,
                pow2(ts.len()) == 2 * p,
                high1 == token_flag(t) + 2 * high,
        ;
        lemma_expand_tokens(front, rest1, high1, k, out);
        let mid = apply_tokens(out, front);
        let k1 = k + front.len();
        assert(k1 < 8);
        assert(high1 % 2 == token_flag(t));
        assert(high1 / 2 == high);
        match t {
            LzssToken::Literal(b) => {
                assert(rest1[0] == b);
                assert(rest1.skip(1) =~= rest);
            },
            LzssToken::Copy { dist, len } => {
                lemma_pointer_round_trip(dist, len);
                assert(rest1[0] == token_bytes(t)[0]);
                assert(rest1[1] == token_bytes(t)[1]);
                assert(rest1.skip(2) =~= rest);
            },
        }
        assert(lzss_expand(rest1, high1, k1, mid) == lzss_expand(
            rest,
            high,
            k1 + 1,
            apply_token(mid, t),
        ));
    }
}

/// The decoder, at a group boundary before the bytes of one group followed
/// by `rest`, ends up where it would after the group, provided the group is
/// full or nothing follows it.
pub proof fn lemma_expand_group(ts: Seq<LzssToken>, rest: Seq<u8>, out: Seq<u8>)
    requires
        tokens_valid(ts),
        1 <= ts.len() <= 8,
        ts.len() == 8 || rest.len() == 0,
    ensures
        lzss_expand(group_bytes(ts) + rest, 0, 8, out) == lzss_expand(
            rest,
            0,
            8,
            apply_tokens(out, ts),
        ),
{
    lemma_tokens_flags_bound(ts);
    lemma_pow2_values();
    assert(pow2(ts.len()) <= 256) by {
        reveal_with_fuel(pow2, 10);
    }
    let s = group_bytes(ts) + rest;
    assert(s[0] as nat == tokens_flags(ts));
    assert(s.skip(1) =~= tokens_bytes(ts) + rest);
    assert(pow2(ts.len()) * 0 == 0) by (nonlinear_arith);
    lemma_expand_tokens(ts, rest, 0, 0, out);
    if rest.len() == 0 {
        assert(lzss_expand(rest, 0, ts.len(), apply_tokens(out, ts)) == Some(
            apply_tokens(out, ts),
        ));
    }
}

/// Copying from bytes that repeat what comes next in `x` extends the prefix
/// of `x` that the output holds.
pub proof fn lemma_copy_back_prefix(x: Seq<u8>, i: int, dist: int, len: nat)
    requires
        1 <= dist <= i,
        i + len <= x.len(),
        forall|p: int| i <= p < i + len ==> #[trigger] x[p] == x[p - dist],
    ensures
        copy_back(x.take(i), dist, len) == x.take(i + len),
    decreases len,
{
    if len > 0 {
        let out = x.take(i);
        let p = out.len() - dist;
        assert(out[p] == x[i - dist]);
        assert(x[i] == x[i - dist]);
        assert(out.push(out[p]) =~= x.take(i + 1));
        lemma_copy_back_prefix(x, i + 1, dist, (len - 1) as nat);
    }
}

/// The additive checksum of `data`.
pub fn additive_checksum(data: &[u8]) -> (sum: i32)
    ensures
        sum == spec_additive_checksum(data@),
{
    let n = data.len();
    let mut acc: u32 = 0;
    let mut i: usize = 0;
    assert(data@.take(0) =~= Seq::<u8>::empty());
    while i < n
        invariant
            i <= n,
            n == data@.len(),
            acc as nat == byte_sum(data@.take(i as int)) % 0x1_0000_0000,
        decreases n - i,
    {
        let ghost before = byte_sum(data@.take(i as int));
        assert(data@.take(i + 1).drop_last() =~= data@.take(i as int));
        assert(data@.take(i + 1).last() == data@[i as int]);
        acc = acc.wrapping_add(data[i] as u32);
        assert(acc as nat == (before + data@[i as int] as nat) % 0x1_0000_0000) by {
            let a = before % 0x1_0000_0000;
            let b = data@[i as int] as nat;
            assert((a + b) % 0x1_0000_0000 == (before + b) % 0x1_0000_0000) by (nonlinear_arith)
                requires
                    a == before % 0x1_0000_0000,
            ;
            if a + b >= 0x1_0000_0000 {
                assert((a + b) % 0x1_0000_0000 == a + b - 0x1_0000_0000);
            }
        }
        i = i + 1;
    }
    assert(data@.take(n as int) =~= data@);
    if acc < 0x8000_0000 {
        acc as i32
    } else {
        let low: u32 = acc - 0x8000_0000;
        (low as i32) + i32::MIN
    }
}

/// Expands a dictionary stream. Fails with `LzssDecompressError` exactly
/// where a pointer is cut short or has distance zero.
pub fn lzss_decode(input: &[u8]) -> (res: PaaResult<Vec<u8>>)
    ensures
        match spec_lzss_decode(input@) {
            Some(d) => res is Ok && res->Ok_0@ == d,
            None => res == Err::<Vec<u8>, PaaError>(PaaError::LzssDecompressError),
        },
{
    let n = input.len();
    let mut out: Vec<u8> = Vec::new();
    let mut pos: usize = 0;
    let mut flags: u8 = 0;
    let mut k: u8 = 8;
    assert(input@.skip(0) =~= input@);
    while pos < n
        invariant
            pos <= n,
            n == input@.len(),
            k <= 8,
            spec_lzss_decode(input@) == lzss_expand(
                input@.skip(pos as int),
                flags as nat,
                k as nat,
                out@,
            ),
        decreases n - pos,
    {
        let ghost s = input@.skip(pos as int);
        assert(s[0] == input@[pos as int]);
        if k >= 8 {
            flags = input[pos];
            k = 0;
            assert(s.skip(1) =~= input@.skip(pos + 1));
            pos = pos + 1;
        } else if flags % 2 == 1 {
            out.push(input[pos]);
            flags = flags / 2;
            k = k + 1;
            assert(s.skip(1) =~= input@.skip(pos + 1));
            pos = pos + 1;
        } else {
            if n - pos < 2 {
                return Err(PaaError::LzssDecompressError);
            }
            let b0 = input[pos];
            let b1 = input[pos + 1];
            assert(s[1] == b1);
            let dist: usize = b0 as usize + 256 * (b1 as usize / 16);
            let len: usize = (b1 % 16) as usize + 3;
            if dist == 0 {
                return Err(PaaError::LzssDecompressError);
            }
            let ghost before = out@;
            let mut j: usize = 0;
            while j < len
                invariant
                    j <= len,
                    dist >= 1,
                    copy_back(out@, dist as int, (len - j) as nat) == copy_back(
                        before,
                        dist as int,
                        len as nat,
                    ),
                decreases len - j,
            {
                let have = out.len();
                let ghost prev = out@;
                let b: u8 = if dist <= have {
                    out[have - dist]
                } else {
                    0x20u8
                };
                out.push(b);
                assert(copy_back(prev, dist as int, (len - j) as nat) == copy_back(
                    prev.push(b),
                    dist as int,
                    (len - j - 1) as nat,
                ));
                j = j + 1;
            }
            flags = flags / 2;
            k = k + 1;
            assert(s.skip(2) =~= input@.skip(pos + 2));
            pos = pos + 2;
        }
    }
    Ok(out)
}

/// The bucket, one of 4096, in which the encoder remembers where three
/// bytes were last seen: the bytes as the digits of a number to the base 31,
/// modulo 4096.
pub open spec fn spec_bucket(b0: u8, b1: u8, b2: u8) -> nat {
    (((b0 as nat * 31 + b1 as nat) * 31 + b2 as nat) % 4096) as nat
}

/// Bucket of the three bytes at the start of a match.
fn bucket(b0: u8, b1: u8, b2: u8) -> (h: usize)
    ensures
        h == spec_bucket(b0, b1, b2),
        h < 4096,
{
    ((b0 as usize * 31 + b1 as usize) * 31 + b2 as usize) % 4096
}

/// How long the bytes at `c` and those at `i` agree, given that they agree
/// for `k` bytes: the first length from `k` on at which the match is 18
/// bytes long, the input ends, or the next two bytes differ.
pub open spec fn spec_match_length(x: Seq<u8>, c: int, i: int, k: int) -> int
    decreases 18 - k,
{
    if 0 <= k < 18 && 0 <= c && i + k < x.len() && x[c + k] == x[i + k] {
        spec_match_length(x, c, i, k + 1)
    } else {
        k
    }
}

/// Length of the longest match, at most 18 bytes, between the bytes at `c`
/// and those at `i`.
fn match_length(input: &[u8], c: usize, i: usize) -> (len: usize)
    requires
        c < i < input@.len(),
    ensures
        len == spec_match_length(input@, c as int, i as int, 0),
        len <= 18,
        i + len <= input@.len(),
        forall|p: int| i <= p < i + len ==> #[trigger] input@[p] == input@[p - (i - c)],
        len == 18 || i + len == input@.len() || input@[c + len] != input@[i + len],
{
    let n = input.len();
    let limit: usize = if n - i < 18 {
        n - i
    } else {
        18
    };
    let mut len: usize = 0;
    while len < limit && input[c + len] == input[i + len]
        invariant
            len <= limit,
            limit <= 18,
            c < i,
            i + limit <= n,
            limit == 18 || i + limit == n,
            n == input@.len(),
            forall|p: int| i <= p < i + len ==> #[trigger] input@[p] == input@[p - (i - c)],
            spec_match_length(input@, c as int, i as int, len as int) == spec_match_length(
                input@,
                c as int,
                i as int,
                0,
            ),
        decreases limit - len,
    {
        len = len + 1;
    }
    len
}

/// The table of the encoder before it has seen anything: 4096 buckets, each
/// holding zero for "nothing seen".
pub open spec fn spec_empty_table() -> Seq<int> {
    Seq::new(4096, |k: int| 0int)
}

/// The table after the encoder has passed position `i`: where it looks for
/// matches and three bytes are left, the bucket of the three bytes at `i`
/// holds `i + 1`.
pub open spec fn spec_table_after(x: Seq<u8>, i: int, table: Seq<int>, matching: bool) -> Seq<int> {
    if matching && 0 <= i && i + 3 <= x.len() {
        table.update(spec_bucket(x[i], x[i + 1], x[i + 2]) as int, i + 1)
    } else {
        table
    }
}

/// The match the encoder takes at position `i`, as distance and length, or a
/// length of zero for none. It looks where the bucket of the three bytes at
/// `i` says they were last seen, and takes the match if that is at most 4095
/// bytes back and three bytes or more agree.
pub open spec fn spec_match_at(x: Seq<u8>, i: int, table: Seq<int>, matching: bool) -> (int, int) {
    if matching && 0 <= i && i + 3 <= x.len() && table.len() == 4096 {
        let seen = table[spec_bucket(x[i], x[i + 1], x[i + 2]) as int];
        let len = spec_match_length(x, seen - 1, i, 0);
        if 0 < seen <= i && i - (seen - 1) <= 4095 && len >= 3 {
            (i - (seen - 1), len)
        } else {
            (0, 0)
        }
    } else {
        (0, 0)
    }
}

/// The items the encoder writes from position `i` on: at each position the
/// match it takes there as a pointer, after which it goes on behind the
/// match, or else the byte as a literal.
#[verifier::opaque]
pub open spec fn spec_tokens(x: Seq<u8>, i: int, table: Seq<int>, matching: bool) -> Seq<LzssToken>
    decreases x.len() - i,
    via spec_tokens_decreases
{
    if 0 <= i < x.len() {
        let found = spec_match_at(x, i, table, matching);
        let after = spec_table_after(x, i, table, matching);
        if found.1 >= 3 {
            seq![LzssToken::Copy { dist: found.0 as u16, len: found.1 as u8 }] + spec_tokens(
                x,
                i + found.1,
                after,
                matching,
            )
        } else {
            seq![LzssToken::Literal(x[i])] + spec_tokens(x, i + 1, after, matching)
        }
    } else {
        Seq::<LzssToken>::empty()
    }
}

#[via_fn]
proof fn spec_tokens_decreases(x: Seq<u8>, i: int, table: Seq<int>, matching: bool) {
    if 0 <= i < x.len() {
        let found = spec_match_at(x, i, table, matching);
        if found.1 >= 3 {
            lemma_match_within(x, i - found.0, i, 0);
        }
    }
}

/// A match ends within the input and is at most 18 bytes long.
pub proof fn lemma_match_within(x: Seq<u8>, c: int, i: int, k: int)
    requires
        0 <= k <= 18,
        i + k <= x.len(),
    ensures
        k <= spec_match_length(x, c, i, k) <= 18,
        i + spec_match_length(x, c, i, k) <= x.len(),
    decreases 18 - k,
{
    if 0 <= k < 18 && 0 <= c && i + k < x.len() && x[c + k] == x[i + k] {
        lemma_match_within(x, c, i, k + 1);
    }
}

/// The stream of the items `ts`: groups of eight, each behind its flag byte,
/// and a last group of what is left.
#[verifier::opaque]
pub open spec fn spec_stream(ts: Seq<LzssToken>) -> Seq<u8>
    decreases ts.len(),
{
    if ts.len() == 0 {
        Seq::<u8>::empty()
    } else {
        let k = if ts.len() % 8 == 0 {
            8
        } else {
            ts.len() % 8
        };
        spec_stream(ts.take(ts.len() - k)) + group_bytes(ts.skip(ts.len() - k))
    }
}

/// The dictionary stream the encoder makes of `x`.
pub open spec fn spec_lzss_encode(x: Seq<u8>) -> Seq<u8> {
    spec_stream(spec_tokens(x, 0, spec_empty_table(), true))
}

/// The dictionary stream of literals alone for `x`.
pub open spec fn spec_lzss_literals(x: Seq<u8>) -> Seq<u8> {
    spec_stream(spec_tokens(x, 0, spec_empty_table(), false))
}

/// The items from a position on are the item the encoder writes there and
/// the items from where it goes on.
proof fn lemma_tokens_step(x: Seq<u8>, i: int, table: Seq<int>, matching: bool)
    requires
        0 <= i < x.len(),
    ensures
        ({
            let found = spec_match_at(x, i, table, matching);
            let after = spec_table_after(x, i, table, matching);
            spec_tokens(x, i, table, matching) == (if found.1 >= 3 {
                seq![LzssToken::Copy { dist: found.0 as u16, len: found.1 as u8 }] + spec_tokens(
                    x,
                    i + found.1,
                    after,
                    matching,
                )
            } else {
                seq![LzssToken::Literal(x[i])] + spec_tokens(x, i + 1, after, matching)
            })
        }),
{
    reveal(spec_tokens);
}

/// Behind the last position nothing is written.
proof fn lemma_tokens_end(x: Seq<u8>, table: Seq<int>, matching: bool)
    ensures
        spec_tokens(x, x.len() as int, table, matching) == Seq::<LzssToken>::empty(),
{
    reveal(spec_tokens);
}

/// The stream of whole groups followed by one more group, whole or not, is
/// the stream of the whole groups followed by the bytes of that group.
proof fn lemma_stream_group(done: Seq<LzssToken>, last: Seq<LzssToken>)
    requires
        done.len() % 8 == 0,
        1 <= last.len() <= 8,
    ensures
        spec_stream(done + last) == spec_stream(done) + group_bytes(last),
{
    reveal(spec_stream);
    let ts = done + last;
    assert(ts.len() % 8 == last.len() % 8);
    assert(ts.take(ts.len() - last.len()) =~= done);
    assert(ts.skip(ts.len() - last.len()) =~= last);
}

/// Packs `input` into a dictionary stream. At each position the encoder
/// looks where the three bytes there were last seen and writes a pointer
/// for a match of three bytes or more, else a literal. The stream expands to
/// `input` and is at most an eighth, and one byte, longer.
pub fn lzss_encode(input: &[u8]) -> (out: Vec<u8>)
    ensures
        out@ == spec_lzss_encode(input@),
        spec_lzss_decode(out@) == Some(input@),
        out@.len() <= input@.len() + input@.len() / 8 + 1,
{
    encode_stream(input, true)
}

/// Packs `input` into a dictionary stream of literals alone: a flag byte
/// before every eight bytes of the input. The stream expands to `input` and
/// is longer than it by one byte for every eight bytes begun.
pub fn lzss_encode_literals(input: &[u8]) -> (out: Vec<u8>)
    ensures
        out@ == spec_lzss_literals(input@),
        spec_lzss_decode(out@) == Some(input@),
        out@.len() == input@.len() + (input@.len() + 7) / 8,
{
    encode_stream(input, false)
}

/// Packs `input` into a dictionary stream, with pointers to earlier bytes
/// where `matching` is set and a match of three bytes or more is found, and
/// with literals alone where it is not set.
fn encode_stream(input: &[u8], matching: bool) -> (out: Vec<u8>)
    ensures
        out@ == spec_stream(spec_tokens(input@, 0, spec_empty_table(), matching)),
        spec_lzss_decode(out@) == Some(input@),
        out@.len() <= input@.len() + input@.len() / 8 + 1,
        !matching ==> out@.len() == input@.len() + (input@.len() + 7) / 8,
{
    let n = input.len();
    let mut out: Vec<u8> = Vec::new();
    let mut head: Vec<usize> = vec![0usize; 4096];
    let mut group: Vec<u8> = Vec::new();
    let mut flags: u16 = 0;
    let mut weight: u16 = 1;
    let mut count: usize = 0;
    let mut i: usize = 0;
    let ghost mut cur: Seq<LzssToken> = Seq::empty();
    let ghost mut table: Seq<int> = spec_empty_table();
    let ghost mut emitted: Seq<LzssToken> = Seq::empty();
    let ghost whole = spec_tokens(input@, 0, spec_empty_table(), matching);
    let ghost mut groups: nat = 0;
    proof {
        lemma_pow2_values();
        assert(emitted + cur + spec_tokens(input@, 0, table, matching) =~= whole);
        assert(spec_stream(emitted) == Seq::<u8>::empty()) by {
            reveal(spec_stream);
        }
    }
    while i < n
        invariant
            i <= n,
            n == input@.len(),
            head@.len() == 4096,
            table.len() == 4096,
            forall|k: int| 0 <= k < 4096 ==> (#[trigger] head@[k]) as int == table[k],
            emitted.len() == 8 * groups,
            out@ == spec_stream(emitted),
            emitted + cur + spec_tokens(input@, i as int, table, matching) == whole,
            cur.len() == count,
            count < 8,
            group@ == tokens_bytes(cur),
            flags as nat == tokens_flags(cur),
            weight as nat == pow2(count as nat),
            flags < weight,
        decreases n - i,
    {
        let mut len: usize = 0;
        let mut dist: usize = 0;
        let ghost here = i as int;
        let ghost before = table;
        let ghost coming = spec_tokens(input@, here, before, matching);
        proof {
            lemma_tokens_step(input@, here, before, matching);
        }
        if matching && n - i >= 3 {
            let h = bucket(input[i], input[i + 1], input[i + 2]);
            let cand = head[h];
            head.set(h, i + 1);
            proof {
                table = table.update(h as int, i + 1);
            }
            if cand > 0 && cand <= i && i - (cand - 1) <= 4095 {
                let found = match_length(input, cand - 1, i);
                if found >= 3 {
                    len = found;
                    dist = i - (cand - 1);
                }
            }
        }
        proof {
            lemma_pow2_values();
            reveal_with_fuel(pow2, 10);
        }
        let ghost t: LzssToken;
        if len >= 3 {
            group.push((dist % 256) as u8);
            group.push(((dist / 256) * 16 + (len - 3)) as u8);
            proof {
                t = LzssToken::Copy { dist: dist as u16, len: len as u8 };
            }
            i = i + len;
        } else {
            group.push(input[i]);
            flags = flags + weight;
            proof {
                t = LzssToken::Literal(input@[i as int]);
            }
            i = i + 1;
        }
        proof {
            let next = cur.push(t);
            assert(next.drop_last() =~= cur);
            assert(next.last() == t);
            assert(token_flag(t) * pow2(count as nat) == if len >= 3 {
                0
            } else {
                pow2(count as nat)
            }) by (nonlinear_arith)
                requires
                    token_flag(t) == if len >= 3 {
                        0nat
                    } else {
                        1nat
                    },
            ;
            assert(group@ =~= tokens_bytes(cur) + token_bytes(t));
            assert(table == spec_table_after(input@, here, before, matching));
            assert(coming == seq![t] + spec_tokens(input@, i as int, table, matching));
            assert(emitted + next + spec_tokens(input@, i as int, table, matching) =~= emitted
                + cur + coming);
            cur = next;
        }
        count = count + 1;
        weight = weight * 2;
        if count == 8 {
            out.push(flags as u8);
            out.extend_from_slice(group.as_slice());
            proof {
                let full = emitted + cur;
                lemma_stream_group(emitted, cur);
                assert(out@ =~= spec_stream(emitted) + group_bytes(cur));
                assert(full + Seq::<LzssToken>::empty() + spec_tokens(
                    input@,
                    i as int,
                    table,
                    matching,
                ) =~= emitted + cur + spec_tokens(input@, i as int, table, matching));
                emitted = full;
                groups = groups + 1;
                cur = Seq::empty();
            }
            group = Vec::new();
            flags = 0;
            weight = 1;
            count = 0;
        }
    }
    proof {
        lemma_tokens_end(input@, table, matching);
        assert(emitted + cur =~= whole);
    }
    if count > 0 {
        out.push(flags as u8);
        out.extend_from_slice(group.as_slice());
        proof {
            lemma_stream_group(emitted, cur);
            assert(out@ =~= spec_stream(emitted) + group_bytes(cur));
        }
    } else {
        assert(emitted =~= whole);
    }
    proof {
        lemma_tokens_rebuild(input@, 0, spec_empty_table(), matching);
        lemma_stream_expands(whole);
        assert(input@.take(0) =~= Seq::<u8>::empty());
    }
    out
}

} // verus!
