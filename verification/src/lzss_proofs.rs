//! What the stream of the dictionary encoder expands to, and how long it is.

use vstd::prelude::*;
use crate::lzss::{
    apply_token, apply_tokens, group_bytes, lemma_copy_back_prefix, lemma_expand_group,
    lemma_match_within, lzss_expand, spec_bucket, spec_empty_table, spec_lzss_decode,
    spec_lzss_encode, spec_lzss_literals, spec_match_at, spec_match_length, spec_stream,
    spec_table_after, spec_tokens, token_bytes, token_valid, tokens_bytes, tokens_valid,
    LzssToken,
};

verus! {

/// The output after the items of `a` and then those of `b` is the output
/// after the items of `b`, begun from the output after those of `a`.
pub proof fn lemma_apply_concat(out: Seq<u8>, a: Seq<LzssToken>, b: Seq<LzssToken>)
    ensures
        apply_tokens(out, a + b) == apply_tokens(apply_tokens(out, a), b),
    decreases b.len(),
{
    if b.len() == 0 {
        assert(a + b =~= a);
    } else {
        lemma_apply_concat(out, a, b.drop_last());
        assert((a + b).drop_last() =~= a + b.drop_last());
        assert((a + b).last() == b.last());
    }
}

/// The bytes of the items of `a` and then those of `b` are the bytes of the
/// ones followed by the bytes of the others.
pub proof fn lemma_bytes_concat(a: Seq<LzssToken>, b: Seq<LzssToken>)
    ensures
        tokens_bytes(a + b) == tokens_bytes(a) + tokens_bytes(b),
    decreases b.len(),
{
    if b.len() == 0 {
        assert(a + b =~= a);
        assert(tokens_bytes(a) + tokens_bytes(b) =~= tokens_bytes(a));
    } else {
        lemma_bytes_concat(a, b.drop_last());
        assert((a + b).drop_last() =~= a + b.drop_last());
        assert((a + b).last() == b.last());
        assert(tokens_bytes(a + b) =~= tokens_bytes(a) + tokens_bytes(b));
    }
}

/// One item alone: the output after it, and its bytes.
pub proof fn lemma_single(out: Seq<u8>, t: LzssToken)
    ensures
        apply_tokens(out, seq![t]) == apply_token(out, t),
        tokens_bytes(seq![t]) == token_bytes(t),
{
    let one = seq![t];
    assert(one.drop_last() =~= Seq::<LzssToken>::empty());
    assert(one.last() == t);
    assert(apply_tokens(out, one.drop_last()) == out);
    assert(tokens_bytes(one.drop_last()) =~= Seq::<u8>::empty());
    assert(tokens_bytes(one) =~= token_bytes(t));
}

/// The bytes of a match are those it points back to.
pub proof fn lemma_match_agrees(x: Seq<u8>, c: int, i: int, k: int)
    requires
        0 <= k,
        0 <= c < i,
        forall|p: int| i <= p < i + k ==> #[trigger] x[p] == x[p - (i - c)],
    ensures
        forall|p: int|
            i <= p < i + spec_match_length(x, c, i, k) ==> #[trigger] x[p] == x[p - (i - c)],
    decreases 18 - k,
{
    if 0 <= k < 18 && 0 <= c && i + k < x.len() && x[c + k] == x[i + k] {
        assert forall|p: int| i <= p < i + k + 1 implies #[trigger] x[p] == x[p - (i - c)] by {
            if p == i + k {
                assert(x[p - (i - c)] == x[c + k]);
            }
        }
        lemma_match_agrees(x, c, i, k + 1);
    }
}

/// The items the encoder writes from a position on are valid, and after
/// the bytes before that position they give the whole input. They are at
/// most as many as the bytes from the position on, and so are their bytes;
/// where the encoder writes literals alone, they are exactly as many.
pub proof fn lemma_tokens_rebuild(x: Seq<u8>, i: int, table: Seq<int>, matching: bool)
    requires
        0 <= i <= x.len(),
    ensures
        tokens_valid(spec_tokens(x, i, table, matching)),
        apply_tokens(x.take(i), spec_tokens(x, i, table, matching)) == x,
        spec_tokens(x, i, table, matching).len() <= x.len() - i,
        tokens_bytes(spec_tokens(x, i, table, matching)).len() <= x.len() - i,
        !matching ==> spec_tokens(x, i, table, matching).len() == x.len() - i,
        !matching ==> tokens_bytes(spec_tokens(x, i, table, matching)).len() == x.len() - i,
    decreases x.len() - i,
{
    reveal(spec_tokens);
    let ts = spec_tokens(x, i, table, matching);
    if i < x.len() {
        let found = spec_match_at(x, i, table, matching);
        let after = spec_table_after(x, i, table, matching);
        if found.1 >= 3 {
            let seen = table[spec_bucket(x[i], x[i + 1], x[i + 2]) as int];
            let c = seen - 1;
            let dist = found.0;
            let len = found.1;
            assert(dist == i - c && len == spec_match_length(x, c, i, 0));
            lemma_match_within(x, c, i, 0);
            lemma_match_agrees(x, c, i, 0);
            let t = LzssToken::Copy { dist: dist as u16, len: len as u8 };
            let rest = spec_tokens(x, i + len, after, matching);
            assert(ts == seq![t] + rest);
            assert(token_valid(t));
            lemma_tokens_rebuild(x, i + len, after, matching);
            lemma_copy_back_prefix(x, i, dist, len as nat);
            lemma_single(x.take(i), t);
            lemma_apply_concat(x.take(i), seq![t], rest);
            lemma_bytes_concat(seq![t], rest);
            assert(tokens_valid(ts)) by {
                assert forall|j: int| 0 <= j < ts.len() implies token_valid(#[trigger] ts[j]) by {
                    if j > 0 {
                        assert(ts[j] == rest[j - 1]);
                    }
                }
            }
        } else {
            let t = LzssToken::Literal(x[i]);
            let rest = spec_tokens(x, i + 1, after, matching);
            assert(ts == seq![t] + rest);
            lemma_tokens_rebuild(x, i + 1, after, matching);
            assert(x.take(i).push(x[i]) =~= x.take(i + 1));
            lemma_single(x.take(i), t);
            lemma_apply_concat(x.take(i), seq![t], rest);
            lemma_bytes_concat(seq![t], rest);
            assert(tokens_valid(ts)) by {
                assert forall|j: int| 0 <= j < ts.len() implies token_valid(#[trigger] ts[j]) by {
                    if j > 0 {
                        assert(ts[j] == rest[j - 1]);
                    }
                }
            }
        }
    } else {
        assert(x.take(i) =~= x);
        assert(tokens_bytes(ts) =~= Seq::<u8>::empty());
    }
}

/// The parts of valid items are valid.
pub proof fn lemma_valid_parts(ts: Seq<LzssToken>, k: int)
    requires
        tokens_valid(ts),
        0 <= k <= ts.len(),
    ensures
        tokens_valid(ts.take(k)),
        tokens_valid(ts.skip(k)),
        ts == ts.take(k) + ts.skip(k),
{
    assert forall|j: int| 0 <= j < ts.take(k).len() implies token_valid(
        #[trigger] ts.take(k)[j],
    ) by {
        assert(ts.take(k)[j] == ts[j]);
    }
    assert forall|j: int| 0 <= j < ts.skip(k).len() implies token_valid(
        #[trigger] ts.skip(k)[j],
    ) by {
        assert(ts.skip(k)[j] == ts[j + k]);
    }
    assert(ts =~= ts.take(k) + ts.skip(k));
}

/// The decoder, at a group boundary before the stream of whole groups
/// followed by `rest`, ends up where it would after the items of the groups.
pub proof fn lemma_expand_whole_groups(ts: Seq<LzssToken>, rest: Seq<u8>, out: Seq<u8>)
    requires
        tokens_valid(ts),
        ts.len() % 8 == 0,
    ensures
        lzss_expand(spec_stream(ts) + rest, 0, 8, out) == lzss_expand(
            rest,
            0,
            8,
            apply_tokens(out, ts),
        ),
    decreases ts.len(),
{
    reveal(spec_stream);
    if ts.len() == 0 {
        assert(spec_stream(ts) + rest =~= rest);
    } else {
        let at = ts.len() - 8;
        let front = ts.take(at);
        let last = ts.skip(at);
        lemma_valid_parts(ts, at);
        let rest1 = group_bytes(last) + rest;
        assert(spec_stream(ts) + rest =~= spec_stream(front) + rest1);
        lemma_expand_whole_groups(front, rest1, out);
        lemma_expand_group(last, rest, apply_tokens(out, front));
        lemma_apply_concat(out, front, last);
    }
}

/// The stream of valid items expands to the output after the items, and
/// holds their bytes and one flag byte for every eight items begun.
pub proof fn lemma_stream_expands(ts: Seq<LzssToken>)
    requires
        tokens_valid(ts),
    ensures
        spec_lzss_decode(spec_stream(ts)) == Some(apply_tokens(Seq::<u8>::empty(), ts)),
        spec_stream(ts).len() == tokens_bytes(ts).len() + (ts.len() + 7) / 8,
    decreases ts.len(),
{
    reveal(spec_stream);
    let start = Seq::<u8>::empty();
    if ts.len() == 0 {
        assert(tokens_bytes(ts) =~= Seq::<u8>::empty());
    } else {
        let k = if ts.len() % 8 == 0 {
            8
        } else {
            ts.len() % 8
        };
        let at = ts.len() - k;
        let front = ts.take(at);
        let last = ts.skip(at);
        lemma_valid_parts(ts, at);
        let tail = Seq::<u8>::empty();
        assert(spec_stream(ts) =~= spec_stream(front) + (group_bytes(last) + tail));
        lemma_expand_whole_groups(front, group_bytes(last) + tail, start);
        lemma_expand_group(last, tail, apply_tokens(start, front));
        lemma_apply_concat(start, front, last);
        lemma_stream_expands(front);
        lemma_bytes_concat(front, last);
        assert(group_bytes(last).len() == 1 + tokens_bytes(last).len());
        assert((ts.len() + 7) / 8 == (front.len() + 7) / 8 + 1);
    }
}

/// The stream the encoder makes of `x` expands to `x` and is at most an
/// eighth, and one byte, longer.
pub proof fn lemma_encoded_expands(x: Seq<u8>)
    ensures
        spec_lzss_decode(spec_lzss_encode(x)) == Some(x),
        spec_lzss_encode(x).len() <= x.len() + x.len() / 8 + 1,
{
    let ts = spec_tokens(x, 0, spec_empty_table(), true);
    lemma_tokens_rebuild(x, 0, spec_empty_table(), true);
    lemma_stream_expands(ts);
    assert(x.take(0) =~= Seq::<u8>::empty());
}

/// The stream of literals alone for `x` expands to `x` and is longer than
/// `x` by one byte for every eight bytes begun.
pub proof fn lemma_literals_expand(x: Seq<u8>)
    ensures
        spec_lzss_decode(spec_lzss_literals(x)) == Some(x),
        spec_lzss_literals(x).len() == x.len() + (x.len() + 7) / 8,
{
    let ts = spec_tokens(x, 0, spec_empty_table(), false);
    lemma_tokens_rebuild(x, 0, spec_empty_table(), false);
    lemma_stream_expands(ts);
    assert(x.take(0) =~= Seq::<u8>::empty());
}

} // verus!
