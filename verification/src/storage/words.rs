//! Splitting UTF-8 text into space-separated words and cutting words into the
//! short byte windows that serve as search tokens.
//!
//! The tokenisers of this crate work on the UTF-8 bytes of their input, as
//! slicing a `str` does: a word is what lies between two `' '` bytes, and a
//! token is a range of a word's bytes. A token must itself be valid UTF-8
//! (start and end on character boundaries); the tokenisers refuse input for
//! which some token would cut a character.
use vstd::prelude::*;
use vstd::utf8::*;
use crate::text::str_from_utf8;

verus! {

/// The byte of the ASCII space, which separates words.
pub const SPACE: u8 = 0x20;

/// The words of `b`: the pieces between `' '` bytes, empty pieces included,
/// built from left to right (`str::split(" ")`).
pub open spec fn split_words(b: Seq<u8>) -> Seq<Seq<u8>>
    decreases b.len(),
{
    if b.len() == 0 {
        seq![Seq::<u8>::empty()]
    } else {
        let init = split_words(b.drop_last());
        if b.last() == SPACE {
            init.push(Seq::<u8>::empty())
        } else {
            init.update(init.len() - 1, init.last().push(b.last()))
        }
    }
}

/// The tokens of one word: none for the empty word, the word itself when it
/// has at most `width` bytes, and otherwise the `width`-byte windows that
/// start at each offset from 0 up to three bytes before the word's end.
pub open spec fn word_tokens(w: Seq<u8>, width: nat) -> Seq<Seq<u8>> {
    if w.len() == 0 {
        seq![]
    } else if w.len() <= width {
        seq![w]
    } else {
        Seq::new((w.len() - 2) as nat, |k: int| w.subrange(k, k + width))
    }
}

/// The tokens of a list of words, word after word.
pub open spec fn tokens_of_words(ws: Seq<Seq<u8>>, width: nat) -> Seq<Seq<u8>>
    decreases ws.len(),
{
    if ws.len() == 0 {
        seq![]
    } else {
        tokens_of_words(ws.drop_last(), width) + word_tokens(ws.last(), width)
    }
}

/// All tokens of a text, as byte sequences.
pub open spec fn all_tokens(b: Seq<u8>, width: nat) -> Seq<Seq<u8>> {
    tokens_of_words(split_words(b), width)
}

/// Every token of the text is valid UTF-8, so that it can be cut out of the
/// text as a string.
pub open spec fn tokenizable(b: Seq<u8>, width: nat) -> bool {
    forall|k: int| 0 <= k < all_tokens(b, width).len() ==> valid_utf8(#[trigger] all_tokens(b, width)[k])
}

/// The UTF-8 bytes of each string of a list.
pub open spec fn utf8_of_strings(v: Seq<String>) -> Seq<Seq<u8>> {
    v.map_values(|t: String| encode_utf8(t@))
}

/// The characters of each string of a list.
pub open spec fn chars_of_strings(v: Seq<String>) -> Seq<Seq<char>> {
    v.map_values(|t: String| t@)
}

/// The byte ranges `[start, end)` picked out of `b`.
pub open spec fn ranges_bytes(b: Seq<u8>, r: Seq<(usize, usize)>) -> Seq<Seq<u8>> {
    r.map_values(|p: (usize, usize)| b.subrange(p.0 as int, p.1 as int))
}

/// A list of words has at least one element.
pub proof fn lemma_split_words_nonempty(b: Seq<u8>)
    ensures
        split_words(b).len() >= 1,
    decreases b.len(),
{
    if b.len() > 0 {
        lemma_split_words_nonempty(b.drop_last());
    }
}

/// Appends to `out` the ranges of the tokens of the word `b[start..end)`.
fn push_word_ranges(
    b: &[u8],
    start: usize,
    end: usize,
    width: usize,
    out: &mut Vec<(usize, usize)>,
)
    requires
        start <= end <= b@.len(),
        width == 2 || width == 3,
    ensures
        ranges_bytes(b@, final(out)@) == ranges_bytes(b@, old(out)@) + word_tokens(
            b@.subrange(start as int, end as int),
            width as nat,
        ),
        forall|k: int|
            0 <= k < final(out)@.len() ==> (old(out)@.len() <= k ==> start <= #[trigger] final(out)@[k].0
                <= final(out)@[k].1 <= end),
        forall|k: int| 0 <= k < old(out)@.len() ==> #[trigger] final(out)@[k] == old(out)@[k],
        final(out)@.len() >= old(out)@.len(),
{
    let ghost w = b@.subrange(start as int, end as int);
    let len = end - start;
    if len == 0 {
        assert(ranges_bytes(b@, out@) + word_tokens(w, width as nat) =~= ranges_bytes(b@, out@));
    } else if len <= width {
        out.push((start, end));
        assert(ranges_bytes(b@, out@) =~= ranges_bytes(b@, old(out)@) + word_tokens(
            w,
            width as nat,
        ));
    } else {
        let mut k: usize = 0;
        while k < len - 2
            invariant
                start <= end <= b@.len(),
                len == end - start,
                len > width,
                width == 2 || width == 3,
                w == b@.subrange(start as int, end as int),
                0 <= k <= len - 2,
                out@.len() == old(out)@.len() + k,
                forall|j: int| 0 <= j < old(out)@.len() ==> #[trigger] out@[j] == old(out)@[j],
                forall|j: int|
                    old(out)@.len() <= j < out@.len() ==> #[trigger] out@[j] == (
                        (start + (j - old(out)@.len())) as usize,
                        (start + (j - old(out)@.len()) + width) as usize,
                    ),
            decreases len - 2 - k,
        {
            out.push((start + k, start + k + width));
            k = k + 1;
        }
        assert forall|j: int| 0 <= j < out@.len() && old(out)@.len() <= j implies start
            <= #[trigger] out@[j].0 <= out@[j].1 <= end by {}
        assert(ranges_bytes(b@, out@) =~= ranges_bytes(b@, old(out)@) + word_tokens(
            w,
            width as nat,
        )) by {
            assert forall|j: int| 0 <= j < out@.len() implies #[trigger] ranges_bytes(
                b@,
                out@,
            )[j] == (ranges_bytes(b@, old(out)@) + word_tokens(w, width as nat))[j] by {
                if j >= old(out)@.len() {
                    let m = j - old(out)@.len();
                    assert(w.subrange(m, m + width) =~= b@.subrange(
                        start + m,
                        start + m + width,
                    ));
                }
            }
        }
    }
}

/// The ranges of all tokens of `b`, in order.
fn token_ranges(b: &[u8], width: usize) -> (r: Vec<(usize, usize)>)
    requires
        width == 2 || width == 3,
    ensures
        ranges_bytes(b@, r@) == all_tokens(b@, width as nat),
        forall|k: int| 0 <= k < r@.len() ==> #[trigger] r@[k].0 <= r@[k].1 <= b@.len(),
{
    let mut out: Vec<(usize, usize)> = Vec::new();
    let mut start: usize = 0;
    let mut i: usize = 0;
    let ghost mut done: Seq<Seq<u8>> = seq![];
    assert(b@.take(0) =~= Seq::<u8>::empty());
    assert(b@.subrange(0, 0) =~= Seq::<u8>::empty());
    while i < b.len()
        invariant
            width == 2 || width == 3,
            0 <= start <= i <= b@.len(),
            split_words(b@.take(i as int)) == done.push(b@.subrange(start as int, i as int)),
            ranges_bytes(b@, out@) == tokens_of_words(done, width as nat),
            forall|k: int| 0 <= k < out@.len() ==> #[trigger] out@[k].0 <= out@[k].1 <= start,
        decreases b.len() - i,
    {
        assert(b@.take(i + 1).drop_last() =~= b@.take(i as int));
        assert(b@.take(i + 1).last() == b@[i as int]);
        if b[i] == SPACE {
            let ghost word = b@.subrange(start as int, i as int);
            push_word_ranges(b, start, i, width, &mut out);
            proof {
                assert(done.push(word).drop_last() =~= done);
                done = done.push(word);
                assert(b@.subrange(i + 1, i + 1) =~= Seq::<u8>::empty());
            }
            start = i + 1;
        } else {
            proof {
                let cur = b@.subrange(start as int, i as int);
                assert(cur.push(b@[i as int]) =~= b@.subrange(start as int, i + 1));
                assert(done.push(cur).update(done.len() as int, cur.push(b@[i as int])) =~= done.push(
                    b@.subrange(start as int, i + 1),
                ));
            }
        }
        i = i + 1;
    }
    let ghost word = b@.subrange(start as int, i as int);
    push_word_ranges(b, start, i, width, &mut out);
    proof {
        assert(b@.take(i as int) =~= b@);
        assert(done.push(word).drop_last() =~= done);
    }
    out
}

/// The tokens of `b` as strings, or `None` when some token is not valid UTF-8.
pub fn try_tokens(b: &[u8], width: usize) -> (r: Option<Vec<String>>)
    requires
        width == 2 || width == 3,
    ensures
        r is Some <==> tokenizable(b@, width as nat),
        r matches Some(v) ==> utf8_of_strings(v@) == all_tokens(b@, width as nat),
{
    let ranges = token_ranges(b, width);
    let ghost toks = all_tokens(b@, width as nat);
    let mut out: Vec<String> = Vec::new();
    let mut k: usize = 0;
    while k < ranges.len()
        invariant
            ranges_bytes(b@, ranges@) == toks,
            toks == all_tokens(b@, width as nat),
            forall|j: int| 0 <= j < ranges@.len() ==> #[trigger] ranges@[j].0 <= ranges@[j].1 <= b@.len(),
            0 <= k <= ranges.len(),
            out@.len() == k,
            forall|j: int| 0 <= j < k ==> valid_utf8(#[trigger] toks[j]),
            forall|j: int| 0 <= j < k ==> encode_utf8(#[trigger] out@[j]@) == toks[j],
        decreases ranges.len() - k,
    {
        let (a, c) = ranges[k];
        assert(toks[k as int] == b@.subrange(a as int, c as int));
        let piece = vstd::slice::slice_subrange(b, a, c);
        match str_from_utf8(piece) {
            Some(s) => {
                out.push(s.to_owned());
            },
            None => {
                return None;
            },
        }
        k = k + 1;
    }
    assert(utf8_of_strings(out@) =~= toks);
    Some(out)
}

/// Splitting a text joined by a space gives the words of both parts.
pub proof fn lemma_split_words_join(a: Seq<u8>, b: Seq<u8>)
    ensures
        split_words(a + seq![SPACE] + b) == split_words(a) + split_words(b),
    decreases b.len(),
{
    let j = a + seq![SPACE];
    if b.len() == 0 {
        assert(j + b =~= j);
        assert(j.drop_last() =~= a);
        assert(split_words(a) + split_words(b) =~= split_words(a).push(Seq::<u8>::empty()));
    } else {
        assert((j + b).drop_last() =~= j + b.drop_last());
        lemma_split_words_join(a, b.drop_last());
        lemma_split_words_nonempty(b.drop_last());
        lemma_split_words_nonempty(a);
        let init = split_words(a) + split_words(b.drop_last());
        assert((j + b).last() == b.last());
        if b.last() == SPACE {
            assert(split_words(a) + split_words(b) =~= init.push(Seq::<u8>::empty()));
        } else {
            let sb = split_words(b.drop_last());
            assert(split_words(b) == sb.update(sb.len() - 1, sb.last().push(b.last())));
            assert(init.last() == sb.last());
            assert(split_words(a) + split_words(b) =~= init.update(
                init.len() - 1,
                init.last().push(b.last()),
            ));
        }
    }
}

/// The tokens of two lists of words, one after the other, are the tokens of
/// the first list followed by those of the second.
pub proof fn lemma_tokens_of_words_concat(x: Seq<Seq<u8>>, y: Seq<Seq<u8>>, width: nat)
    ensures
        tokens_of_words(x + y, width) == tokens_of_words(x, width) + tokens_of_words(y, width),
    decreases y.len(),
{
    if y.len() == 0 {
        assert(x + y =~= x);
        assert(tokens_of_words(x, width) + tokens_of_words(y, width) =~= tokens_of_words(x, width));
    } else {
        lemma_tokens_of_words_concat(x, y.drop_last(), width);
        assert((x + y).drop_last() =~= x + y.drop_last());
        assert((x + y).last() == y.last());
        assert(tokens_of_words(x, width) + tokens_of_words(y, width) =~= tokens_of_words(
            x,
            width,
        ) + tokens_of_words(y.drop_last(), width) + word_tokens(y.last(), width));
    }
}

/// Words are tokenised one by one: the tokens of two texts joined by a
/// space are the tokens of the first followed by those of the second.
pub proof fn lemma_all_tokens_join(a: Seq<u8>, b: Seq<u8>, width: nat)
    ensures
        all_tokens(a + seq![SPACE] + b, width) == all_tokens(a, width) + all_tokens(b, width),
{
    lemma_split_words_join(a, b);
    lemma_tokens_of_words_concat(split_words(a), split_words(b), width);
}

/// The UTF-8 encoding of two texts one after the other is the encoding of
/// the first followed by that of the second.
pub proof fn lemma_encode_utf8_concat(a: Seq<char>, b: Seq<char>)
    ensures
        encode_utf8(a + b) == encode_utf8(a) + encode_utf8(b),
    decreases a.len(),
{
    if a.len() == 0 {
        assert(a + b =~= b);
        assert(encode_utf8(a) + encode_utf8(b) =~= encode_utf8(b));
    } else {
        assert((a + b).drop_first() =~= a.drop_first() + b);
        assert((a + b)[0] == a[0]);
        lemma_encode_utf8_concat(a.drop_first(), b);
        assert(encode_utf8(a + b) =~= encode_utf8(a) + encode_utf8(b));
    }
}

/// A space is encoded as the single byte `SPACE`.
pub proof fn lemma_encode_space()
    ensures
        encode_utf8(seq![' ']) == seq![SPACE],
{
    let s = seq![' '];
    assert(s.drop_first() =~= Seq::<char>::empty());
    assert((32u32 & 0x7Fu32) as u8 == 0x20u8) by (bit_vector);
    assert(s[0] as u32 == 32u32);
    assert(encode_scalar(32u32) == seq![SPACE]);
    assert(encode_utf8(s.drop_first()) =~= Seq::<u8>::empty());
    assert(encode_utf8(s) =~= seq![SPACE]);
}

/// A text without characters has no tokens.
pub proof fn lemma_all_tokens_empty(width: nat)
    ensures
        all_tokens(encode_utf8(Seq::<char>::empty()), width) == Seq::<Seq<u8>>::empty(),
{
    let e = Seq::<u8>::empty();
    assert(encode_utf8(Seq::<char>::empty()) =~= e);
    let ws = split_words(e);
    assert(ws == seq![e]);
    assert(ws.drop_last() =~= Seq::<Seq<u8>>::empty());
    assert(ws.last() == e);
    assert(word_tokens(e, width) =~= Seq::<Seq<u8>>::empty());
    assert(tokens_of_words(ws.drop_last(), width) =~= Seq::<Seq<u8>>::empty());
    assert(tokens_of_words(ws, width) =~= Seq::<Seq<u8>>::empty());
}

/// Words are tokenised one by one: the tokens of two texts joined by a space
/// are the tokens of the first followed by those of the second, and the
/// joined text can be cut into tokens exactly when both parts can.
pub proof fn lemma_text_tokens_join(a: Seq<char>, b: Seq<char>, width: nat)
    ensures
        all_tokens(encode_utf8(a + seq![' '] + b), width) == all_tokens(encode_utf8(a), width)
            + all_tokens(encode_utf8(b), width),
        tokenizable(encode_utf8(a + seq![' '] + b), width) <==> tokenizable(encode_utf8(a), width)
            && tokenizable(encode_utf8(b), width),
{
    lemma_encode_utf8_concat(a + seq![' '], b);
    lemma_encode_utf8_concat(a, seq![' ']);
    lemma_encode_space();
    lemma_all_tokens_join(encode_utf8(a), encode_utf8(b), width);
    let ta = all_tokens(encode_utf8(a), width);
    let tb = all_tokens(encode_utf8(b), width);
    let t = all_tokens(encode_utf8(a + seq![' '] + b), width);
    assert(t == ta + tb);
    if tokenizable(encode_utf8(a), width) && tokenizable(encode_utf8(b), width) {
        assert forall|k: int| 0 <= k < t.len() implies valid_utf8(#[trigger] t[k]) by {
            if k < ta.len() {
                assert(t[k] == ta[k]);
            } else {
                assert(t[k] == tb[k - ta.len()]);
            }
        }
    }
    if tokenizable(encode_utf8(a + seq![' '] + b), width) {
        assert forall|k: int| 0 <= k < ta.len() implies valid_utf8(#[trigger] ta[k]) by {
            assert(t[k] == ta[k]);
        }
        assert forall|k: int| 0 <= k < tb.len() implies valid_utf8(#[trigger] tb[k]) by {
            assert(t[k + ta.len()] == tb[k]);
        }
    }
}

/// No word holds a space.
pub proof fn lemma_split_words_no_space(b: Seq<u8>)
    ensures
        forall|i: int, j: int|
            0 <= i < split_words(b).len() && 0 <= j < split_words(b)[i].len() ==> #[trigger] split_words(
                b,
            )[i][j] != SPACE,
    decreases b.len(),
{
    if b.len() > 0 {
        lemma_split_words_no_space(b.drop_last());
        lemma_split_words_nonempty(b.drop_last());
        let init = split_words(b.drop_last());
        if b.last() != SPACE {
            assert forall|i: int, j: int|
                0 <= i < split_words(b).len() && 0 <= j < split_words(b)[i].len() implies #[trigger] split_words(
                b,
            )[i][j] != SPACE by {
                if i == init.len() - 1 {
                    if j < init.last().len() {
                        assert(split_words(b)[i][j] == init[i][j]);
                    }
                } else {
                    assert(split_words(b)[i] == init[i]);
                }
            }
        } else {
            assert forall|i: int, j: int|
                0 <= i < split_words(b).len() && 0 <= j < split_words(b)[i].len() implies #[trigger] split_words(
                b,
            )[i][j] != SPACE by {
                assert(split_words(b)[i] == init.push(Seq::<u8>::empty())[i]);
                if i < init.len() {
                    assert(split_words(b)[i][j] == init[i][j]);
                }
            }
        }
    }
}

/// A token has between one and `width` bytes and holds no space.
pub open spec fn is_token_shape(t: Seq<u8>, width: nat) -> bool {
    &&& 1 <= t.len() <= width
    &&& forall|j: int| 0 <= j < t.len() ==> #[trigger] t[j] != SPACE
}

proof fn lemma_tokens_of_words_shape(ws: Seq<Seq<u8>>, width: nat)
    requires
        width == 2 || width == 3,
        forall|i: int, j: int| 0 <= i < ws.len() && 0 <= j < ws[i].len() ==> #[trigger] ws[i][j] != SPACE,
    ensures
        forall|k: int|
            0 <= k < tokens_of_words(ws, width).len() ==> is_token_shape(
                #[trigger] tokens_of_words(ws, width)[k],
                width,
            ),
    decreases ws.len(),
{
    if ws.len() > 0 {
        let w = ws.last();
        assert forall|i: int, j: int|
            0 <= i < ws.drop_last().len() && 0 <= j < ws.drop_last()[i].len() implies #[trigger] ws.drop_last()[i][j]
            != SPACE by {
            assert(ws.drop_last()[i] == ws[i]);
        }
        lemma_tokens_of_words_shape(ws.drop_last(), width);
        let prev = tokens_of_words(ws.drop_last(), width);
        let wt = word_tokens(w, width);
        assert forall|k: int| 0 <= k < wt.len() implies is_token_shape(#[trigger] wt[k], width) by {
            if w.len() > width {
                assert(wt[k] == w.subrange(k, k + width));
                assert forall|j: int| 0 <= j < wt[k].len() implies #[trigger] wt[k][j] != SPACE by {
                    assert(wt[k][j] == w[k + j]);
                    assert(w[k + j] == ws[ws.len() - 1][k + j]);
                }
            } else {
                assert forall|j: int| 0 <= j < wt[k].len() implies #[trigger] wt[k][j] != SPACE by {
                    assert(w[j] == ws[ws.len() - 1][j]);
                }
            }
        }
        assert forall|k: int|
            0 <= k < tokens_of_words(ws, width).len() implies is_token_shape(
            #[trigger] tokens_of_words(ws, width)[k],
            width,
        ) by {
            if k < prev.len() {
                assert(tokens_of_words(ws, width)[k] == prev[k]);
            } else {
                assert(tokens_of_words(ws, width)[k] == wt[k - prev.len()]);
            }
        }
    }
}

/// Every token has between one and `width` bytes and holds no space.
pub proof fn lemma_token_shape(b: Seq<u8>, width: nat)
    requires
        width == 2 || width == 3,
    ensures
        forall|k: int|
            0 <= k < all_tokens(b, width).len() ==> is_token_shape(#[trigger] all_tokens(b, width)[k], width),
{
    lemma_split_words_no_space(b);
    lemma_tokens_of_words_shape(split_words(b), width);
}

} // verus!
