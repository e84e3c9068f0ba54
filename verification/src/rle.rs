//! The run-length codec of the legacy indexed formats.
//!
//! A stream is a sequence of blocks. Each block starts with a flag byte: with
//! its high bit set, the low seven bits plus one count how often the single
//! following byte repeats; with the high bit clear, the low seven bits plus
//! one count the bytes that follow verbatim.

use vstd::prelude::*;
use crate::error::{PaaError, PaaResult};

verus! {

/// `n` copies of `b`.
pub open spec fn repeated(b: u8, n: nat) -> Seq<u8> {
    Seq::new(n, |i: int| b)
}

/// `Some(a + b)` where the tail `r` is `Some(b)`.
pub open spec fn prepend(a: Seq<u8>, r: Option<Seq<u8>>) -> Option<Seq<u8>> {
    match r {
        Some(b) => Some(a + b),
        None => None,
    }
}

/// What a run-length stream expands to, or `None` where it ends inside a
/// block.
pub open spec fn spec_rle_decode(s: Seq<u8>) -> Option<Seq<u8>>
    decreases s.len(),
{
    if s.len() == 0 {
        Some(Seq::<u8>::empty())
    } else if s[0] >= 128 {
        if s.len() < 2 {
            None
        } else {
            prepend(repeated(s[1], (s[0] - 127) as nat), spec_rle_decode(s.skip(2)))
        }
    } else {
        let n = s[0] as int + 1;
        if s.len() < 1 + n {
            None
        } else {
            prepend(s.subrange(1, 1 + n), spec_rle_decode(s.skip(1 + n)))
        }
    }
}

/// The end of the run of bytes equal to `x[i]` that holds `[i, j)`: the
/// first index from `j` on that ends the input, makes the run 128 long or
/// holds another byte.
pub open spec fn run_end(x: Seq<u8>, i: int, j: int) -> int
    decreases x.len() - j,
{
    if j < x.len() && j - i < 128 && x[j] == x[i] {
        run_end(x, i, j + 1)
    } else {
        j
    }
}

/// Length of the run that starts at `i`, at most 128.
pub open spec fn run_length(x: Seq<u8>, i: int) -> int {
    run_end(x, i, i + 1) - i
}

/// The end of the literal block that holds `[i, j)`: the first index from
/// `j` on that ends the input, makes the block 128 long or starts a run of
/// three or more.
pub open spec fn literal_end(x: Seq<u8>, i: int, j: int) -> int
    decreases x.len() - j,
{
    if j < x.len() && j - i < 128 && run_length(x, j) < 3 {
        literal_end(x, i, j + 1)
    } else {
        j
    }
}

/// The stream for `x` from index `i` on: a run of three or more equal bytes
/// becomes a repeat block, everything else goes into literal blocks, and no
/// block counts more than 128 bytes.
pub open spec fn spec_rle_encode_from(x: Seq<u8>, i: int) -> Seq<u8>
    decreases x.len() - i,
    via spec_rle_encode_from_decreases
{
    if i < 0 || i >= x.len() {
        Seq::<u8>::empty()
    } else {
        let r = run_length(x, i);
        if r >= 3 {
            seq![(127 + r) as u8, x[i]] + spec_rle_encode_from(x, i + r)
        } else {
            let j = literal_end(x, i, i + 1);
            seq![(j - i - 1) as u8] + x.subrange(i, j) + spec_rle_encode_from(x, j)
        }
    }
}

#[via_fn]
proof fn spec_rle_encode_from_decreases(x: Seq<u8>, i: int) {
    if 0 <= i < x.len() {
        lemma_run_end(x, i, i + 1);
        lemma_literal_end(x, i, i + 1);
    }
}

/// The run-length stream for `x`.
pub open spec fn spec_rle_encode(x: Seq<u8>) -> Seq<u8> {
    spec_rle_encode_from(x, 0)
}

/// A run ends within the input, is at most 128 long and holds equal bytes.
pub proof fn lemma_run_end(x: Seq<u8>, i: int, j: int)
    requires
        0 <= i < j <= x.len(),
        j - i <= 128,
        forall|k: int| i <= k < j ==> x[k] == x[i],
    ensures
        j <= run_end(x, i, j) <= x.len(),
        run_end(x, i, j) - i <= 128,
        forall|k: int| i <= k < run_end(x, i, j) ==> x[k] == x[i],
    decreases x.len() - j,
{
    if j < x.len() && j - i < 128 && x[j] == x[i] {
        lemma_run_end(x, i, j + 1);
    }
}

/// A literal block ends within the input and is at most 128 long.
pub proof fn lemma_literal_end(x: Seq<u8>, i: int, j: int)
    requires
        0 <= i < j <= x.len(),
        j - i <= 128,
    ensures
        j <= literal_end(x, i, j) <= x.len(),
        literal_end(x, i, j) - i <= 128,
    decreases x.len() - j,
{
    if j < x.len() && j - i < 128 && run_length(x, j) < 3 {
        lemma_literal_end(x, i, j + 1);
    }
}

/// Decoding a repeat block followed by `rest`.
proof fn lemma_decode_repeat_block(b: u8, r: int, rest: Seq<u8>)
    requires
        1 <= r <= 128,
    ensures
        spec_rle_decode(seq![(127 + r) as u8, b] + rest) == prepend(
            repeated(b, r as nat),
            spec_rle_decode(rest),
        ),
{
    let s = seq![(127 + r) as u8, b] + rest;
    assert(s[0] == (127 + r) as u8);
    assert(s[1] == b);
    assert(s.skip(2) =~= rest);
}

/// Decoding a literal block followed by `rest`.
proof fn lemma_decode_literal_block(lit: Seq<u8>, rest: Seq<u8>)
    requires
        1 <= lit.len() <= 128,
    ensures
        spec_rle_decode(seq![(lit.len() - 1) as u8] + lit + rest) == prepend(
            lit,
            spec_rle_decode(rest),
        ),
{
    let s = seq![(lit.len() - 1) as u8] + lit + rest;
    assert(s[0] == (lit.len() - 1) as u8);
    assert(s.subrange(1, 1 + lit.len() as int) =~= lit);
    assert(s.skip(1 + lit.len() as int) =~= rest);
}

/// The stream made for the tail of `x` from `i` expands to that tail.
pub proof fn lemma_rle_round_trip_from(x: Seq<u8>, i: int)
    requires
        0 <= i <= x.len(),
    ensures
        spec_rle_decode(spec_rle_encode_from(x, i)) == Some(x.skip(i)),
    decreases x.len() - i,
{
    if i >= x.len() {
        assert(x.skip(i) =~= Seq::<u8>::empty());
    } else {
        lemma_run_end(x, i, i + 1);
        let r = run_length(x, i);
        if r >= 3 {
            let rest = spec_rle_encode_from(x, i + r);
            lemma_rle_round_trip_from(x, i + r);
            lemma_decode_repeat_block(x[i], r, rest);
            assert(repeated(x[i], r as nat) + x.skip(i + r) =~= x.skip(i));
        } else {
            lemma_literal_end(x, i, i + 1);
            let j = literal_end(x, i, i + 1);
            let rest = spec_rle_encode_from(x, j);
            lemma_rle_round_trip_from(x, j);
            lemma_decode_literal_block(x.subrange(i, j), rest);
            assert(x.subrange(i, j) + x.skip(j) =~= x.skip(i));
        }
    }
}

/// Expanding the stream made for `x` gives `x` back, for every `x`.
pub proof fn lemma_rle_round_trip(x: Seq<u8>)
    ensures
        spec_rle_decode(spec_rle_encode(x)) == Some(x),
{
    lemma_rle_round_trip_from(x, 0);
    assert(x.skip(0) =~= x);
}

/// Expands a run-length stream. Fails with `RleError` exactly where the
/// stream ends inside a block.
pub fn rle_decode(input: &[u8]) -> (res: PaaResult<Vec<u8>>)
    ensures
        match spec_rle_decode(input@) {
            Some(d) => res is Ok && res->Ok_0@ == d,
            None => res == Err::<Vec<u8>, PaaError>(PaaError::RleError),
        },
{
    let n = input.len();
    let mut out: Vec<u8> = Vec::new();
    let mut i: usize = 0;
    assert(input@.skip(0) =~= input@);
    while i < n
        invariant
            i <= n,
            n == input@.len(),
            spec_rle_decode(input@) == prepend(out@, spec_rle_decode(input@.skip(i as int))),
        decreases n - i,
    {
        let ghost s = input@.skip(i as int);
        let flag = input[i];
        assert(s[0] == flag);
        if flag >= 128 {
            if n - i < 2 {
                return Err(PaaError::RleError);
            }
            let b = input[i + 1];
            assert(s[1] == b);
            let count: usize = (flag - 127) as usize;
            let ghost before = out@;
            let mut k: usize = 0;
            while k < count
                invariant
                    k <= count,
                    out@ == before + repeated(b, k as nat),
                decreases count - k,
            {
                out.push(b);
                k = k + 1;
                assert(out@ =~= before + repeated(b, k as nat));
            }
            assert(s.skip(2) =~= input@.skip(i + 2));
            assert(forall|t: Seq<u8>| #[trigger] (before + (repeated(b, count as nat) + t)) =~= out@ + t);
            i = i + 2;
        } else {
            let count: usize = flag as usize + 1;
            if n - i < 1 + count {
                return Err(PaaError::RleError);
            }
            let ghost before = out@;
            let lit = vstd::slice::slice_subrange(input, i + 1, i + 1 + count);
            out.extend_from_slice(lit);
            assert(lit@ =~= s.subrange(1, 1 + count));
            assert(s.skip(1 + count) =~= input@.skip(i + 1 + count));
            assert(forall|t: Seq<u8>| #[trigger] (before + (lit@ + t)) =~= out@ + t);
            i = i + 1 + count;
        }
    }
    assert(out@ + Seq::<u8>::empty() =~= out@);
    Ok(out)
}

/// The end of the run that starts at `i`.
fn find_run_end(input: &[u8], i: usize) -> (e: usize)
    requires
        i < input@.len(),
    ensures
        e == run_end(input@, i as int, i + 1),
        i < e <= input@.len(),
        e - i <= 128,
{
    let n = input.len();
    let mut j: usize = i + 1;
    while j < n && j - i < 128 && input[j] == input[i]
        invariant
            i < j <= n,
            n == input@.len(),
            j - i <= 128,
            run_end(input@, i as int, j as int) == run_end(input@, i as int, i + 1),
        decreases n - j,
    {
        j = j + 1;
    }
    j
}

/// The end of the literal block that starts at `i`.
fn find_literal_end(input: &[u8], i: usize) -> (e: usize)
    requires
        i < input@.len(),
    ensures
        e == literal_end(input@, i as int, i + 1),
        i < e <= input@.len(),
        e - i <= 128,
{
    let n = input.len();
    let mut j: usize = i + 1;
    while j < n && j - i < 128
        invariant
            i < j <= n,
            n == input@.len(),
            j - i <= 128,
            literal_end(input@, i as int, j as int) == literal_end(input@, i as int, i + 1),
        ensures
            i < j <= n,
            j - i <= 128,
            j == literal_end(input@, i as int, i + 1),
        decreases n - j,
    {
        let e = find_run_end(input, j);
        if e - j >= 3 {
            break ;
        }
        j = j + 1;
    }
    j
}

/// Packs `input` into a run-length stream: runs of three or more equal
/// bytes become repeat blocks, everything else literal blocks.
pub fn rle_encode(input: &[u8]) -> (out: Vec<u8>)
    ensures
        out@ == spec_rle_encode(input@),
        spec_rle_decode(out@) == Some(input@),
{
    let n = input.len();
    let mut out: Vec<u8> = Vec::new();
    let mut i: usize = 0;
    while i < n
        invariant
            i <= n,
            n == input@.len(),
            out@ + spec_rle_encode_from(input@, i as int) == spec_rle_encode_from(input@, 0),
        decreases n - i,
    {
        let ghost before = out@;
        let e = find_run_end(input, i);
        let r: usize = e - i;
        if r >= 3 {
            out.push((127 + r) as u8);
            out.push(input[i]);
            assert(out@ =~= before + seq![(127 + r) as u8, input@[i as int]]);
            assert(before + (seq![(127 + r) as u8, input@[i as int]] + spec_rle_encode_from(
                input@,
                e as int,
            )) =~= out@ + spec_rle_encode_from(input@, e as int));
            i = e;
        } else {
            let j = find_literal_end(input, i);
            out.push((j - i - 1) as u8);
            let lit = vstd::slice::slice_subrange(input, i, j);
            out.extend_from_slice(lit);
            assert(out@ =~= before + (seq![(j - i - 1) as u8] + input@.subrange(i as int, j as int)));
            assert(before + (seq![(j - i - 1) as u8] + input@.subrange(i as int, j as int)
                + spec_rle_encode_from(input@, j as int)) =~= out@ + spec_rle_encode_from(
                input@,
                j as int,
            ));
            i = j;
        }
    }
    assert(out@ + Seq::<u8>::empty() =~= out@);
    proof {
        lemma_rle_round_trip(input@);
    }
    out
}

} // verus!
