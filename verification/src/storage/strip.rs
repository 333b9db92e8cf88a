//! Character filters shared by the metadata normalisers.
use vstd::prelude::*;
use crate::text::{chars_of, replace_chars, replace_all};

verus! {

/// The punctuation that normalisation deletes: `, . - : ; / # \ ` ( )`.
pub open spec fn is_dropped_punct(c: char) -> bool {
    c == ',' || c == '.' || c == '-' || c == ':' || c == ';' || c == '/' || c == '#' || c == '\\'
        || c == '`' || c == '(' || c == ')'
}

/// `s` without its dropped punctuation.
pub open spec fn strip_punct(s: Seq<char>) -> Seq<char> {
    s.filter(|c: char| !is_dropped_punct(c))
}

/// The layout characters that some normalisers turn into spaces:
/// line feed, carriage return and tab.
pub open spec fn is_layout_break(c: char) -> bool {
    c == '\n' || c == '\r' || c == '\t'
}

/// `s` with each line feed, carriage return and tab replaced by a space.
pub open spec fn breaks_to_spaces(s: Seq<char>) -> Seq<char> {
    s.map_values(|c: char| if is_layout_break(c) { ' ' } else { c })
}

fn dropped_punct(c: char) -> (r: bool)
    ensures
        r == is_dropped_punct(c),
{
    c == ',' || c == '.' || c == '-' || c == ':' || c == ';' || c == '/' || c == '#' || c == '\\'
        || c == '`' || c == '(' || c == ')'
}

/// Removes the dropped punctuation from a character sequence.
pub fn strip_punct_chars(s: &Vec<char>) -> (r: Vec<char>)
    ensures
        r@ == strip_punct(s@),
{
    let mut out: Vec<char> = Vec::new();
    let mut i: usize = 0;
    while i < s.len()
        invariant
            0 <= i <= s.len(),
            out@ == strip_punct(s@.take(i as int)),
        decreases s.len() - i,
    {
        proof {
            reveal_with_fuel(Seq::filter, 1);
            assert(s@.take(i + 1).drop_last() =~= s@.take(i as int));
        }
        let c = s[i];
        if !dropped_punct(c) {
            out.push(c);
        }
        i = i + 1;
    }
    assert(s@.take(s.len() as int) =~= s@);
    out
}

/// Turns each line feed, carriage return and tab into a space.
pub fn breaks_to_spaces_chars(s: &Vec<char>) -> (r: Vec<char>)
    ensures
        r@ == breaks_to_spaces(s@),
{
    let mut out: Vec<char> = Vec::new();
    let mut i: usize = 0;
    while i < s.len()
        invariant
            0 <= i <= s.len(),
            out@ == breaks_to_spaces(s@.take(i as int)),
        decreases s.len() - i,
    {
        let c = s[i];
        if c == '\n' || c == '\r' || c == '\t' {
            out.push(' ');
        } else {
            out.push(c);
        }
        assert(breaks_to_spaces(s@.take(i + 1)) =~= breaks_to_spaces(s@.take(i as int)).push(
            out@.last(),
        ));
        i = i + 1;
    }
    assert(s@.take(s.len() as int) =~= s@);
    out
}

/// Replaces every occurrence of the non-empty literal `pat` by `rep`.
pub fn replace_literal(s: &Vec<char>, pat: &str, rep: &str) -> (r: Vec<char>)
    requires
        pat@.len() > 0,
    ensures
        r@ == replace_all(s@, pat@, rep@),
{
    let p = chars_of(pat);
    let q = chars_of(rep);
    replace_chars(s, &p, &q)
}

/// Stripping punctuation twice is stripping it once.
pub proof fn lemma_strip_punct_idempotent(s: Seq<char>)
    ensures
        strip_punct(strip_punct(s)) == strip_punct(s),
    decreases s.len(),
{
    reveal_with_fuel(Seq::filter, 1);
    if s.len() > 0 {
        lemma_strip_punct_idempotent(s.drop_last());
        let t = strip_punct(s.drop_last());
        if !is_dropped_punct(s.last()) {
            assert(t.push(s.last()).drop_last() =~= t);
        }
    }
}

/// Nothing of the dropped punctuation is left after stripping.
pub proof fn lemma_strip_punct_removes(s: Seq<char>)
    ensures
        forall|i: int| 0 <= i < strip_punct(s).len() ==> !is_dropped_punct(#[trigger] strip_punct(s)[i]),
{
    broadcast use vstd::seq_lib::group_filter_ensures;

}

/// Every character left by stripping was a character of the input.
pub proof fn lemma_strip_punct_from(s: Seq<char>)
    ensures
        forall|i: int| 0 <= i < strip_punct(s).len() ==> s.contains(#[trigger] strip_punct(s)[i]),
{
    assert forall|i: int| 0 <= i < strip_punct(s).len() implies s.contains(
        #[trigger] strip_punct(s)[i],
    ) by {
        assert(strip_punct(s).contains(strip_punct(s)[i]));
        s.lemma_filter_contains_rev(|c: char| !is_dropped_punct(c), strip_punct(s)[i]);
    }
}

/// Stripping keeps every other character, in order: a character that is not
/// dropped punctuation survives in the output.
pub proof fn lemma_strip_punct_keeps(s: Seq<char>, i: int)
    requires
        0 <= i < s.len(),
        !is_dropped_punct(s[i]),
    ensures
        strip_punct(s).contains(s[i]),
{
    broadcast use vstd::seq_lib::group_filter_ensures;

}

/// Turning breaks into spaces twice is doing it once.
pub proof fn lemma_breaks_to_spaces_idempotent(s: Seq<char>)
    ensures
        breaks_to_spaces(breaks_to_spaces(s)) == breaks_to_spaces(s),
{
    assert(breaks_to_spaces(breaks_to_spaces(s)) =~= breaks_to_spaces(s));
}

/// Stripping punctuation and turning breaks into spaces can be done in
/// either order.
pub proof fn lemma_strip_breaks_commute(s: Seq<char>)
    ensures
        strip_punct(breaks_to_spaces(s)) == breaks_to_spaces(strip_punct(s)),
    decreases s.len(),
{
    reveal_with_fuel(Seq::filter, 1);
    if s.len() > 0 {
        lemma_strip_breaks_commute(s.drop_last());
        assert(breaks_to_spaces(s).drop_last() =~= breaks_to_spaces(s.drop_last()));
        let c = s.last();
        let t = strip_punct(s.drop_last());
        if !is_dropped_punct(c) {
            assert(breaks_to_spaces(t.push(c)) =~= breaks_to_spaces(t).push(
                if is_layout_break(c) {
                    ' '
                } else {
                    c
                },
            ));
        }
    } else {
        assert(breaks_to_spaces(s) =~= s);
    }
}

/// Stripping removes exactly the characters `, . - : ; / # \ ` ( )`: nothing
/// is left of an empty text, and a character added at the end is dropped if
/// it is one of them and kept otherwise, after what was kept before.
pub proof fn lemma_strip_punct_exact(s: Seq<char>, c: char)
    ensures
        strip_punct(Seq::<char>::empty()) == Seq::<char>::empty(),
        strip_punct(s.push(c)) == (if c == ',' || c == '.' || c == '-' || c == ':' || c == ';' || c
            == '/' || c == '#' || c == '\\' || c == '`' || c == '(' || c == ')' {
            strip_punct(s)
        } else {
            strip_punct(s).push(c)
        }),
{
    reveal_with_fuel(Seq::filter, 1);
    assert(s.push(c).drop_last() =~= s);
    assert(Seq::<char>::empty().filter(|x: char| !is_dropped_punct(x)) =~= Seq::<char>::empty());
}

} // verus!
