//! Normalisation and trigram tokenisation of song metadata, the criteria that
//! look a song up in the library, and the weighting of the candidates found.
use vstd::prelude::*;
use vstd::utf8::*;
use crate::storage::strip::{
    breaks_to_spaces, breaks_to_spaces_chars, is_dropped_punct, is_layout_break,
    lemma_breaks_to_spaces_idempotent, lemma_strip_breaks_commute, lemma_strip_punct_exact, lemma_strip_punct_from,
    lemma_strip_punct_idempotent, lemma_strip_punct_removes, replace_literal, strip_punct, strip_punct_chars,
};
use crate::storage::data::trigrams;
use crate::storage::words::{tokenizable, try_tokens, utf8_of_strings};
use crate::text::{
    lemma_replace_all_absent, lemma_replace_all_front, occurs_nowhere, ascii_lower, ascii_lower_char, chars_of, lemma_ascii_lower, lemma_lowered_fixed, lowered,
    replace_all, string_of, to_lowercase,
};

verus! {

/// The normal form of a metadata string: lower case, without the dropped
/// punctuation, with line feeds, carriage returns and tabs turned into spaces.
pub open spec fn normalized(s: Seq<char>) -> Seq<char> {
    breaks_to_spaces(strip_punct(lowered(s)))
}

/// The normal form of a title: the normal form of the string, then "feat",
/// "remastered", "remaster" and "live" removed and "and" turned into "&",
/// each replacement applied to the result of the one before.
pub open spec fn title_normalized(s: Seq<char>) -> Seq<char> {
    let n = normalized(s);
    let a = replace_all(n, "feat"@, ""@);
    let b = replace_all(a, "remastered"@, ""@);
    let c = replace_all(b, "remaster"@, ""@);
    let d = replace_all(c, "live"@, ""@);
    replace_all(d, "and"@, "&"@)
}

/// The trigrams of `s` can be cut out on character boundaries.
pub open spec fn trigram_tokenizable(s: Seq<char>) -> bool {
    tokenizable(encode_utf8(s), 3)
}

/// Lower-cases `s`, removes the punctuation `, . - : ; / # \ ` ( )` and turns
/// line feeds, carriage returns and tabs into spaces.
pub fn normalize_str(s: &str) -> (r: String)
    ensures
        r@ == normalized(s@),
{
    let lower = to_lowercase(s);
    let chars = chars_of(lower.as_str());
    let kept = strip_punct_chars(&chars);
    let spaced = breaks_to_spaces_chars(&kept);
    string_of(&spaced)
}

/// Normalises a song title: `normalize_str`, then removes "feat",
/// "remastered", "remaster", "live" and turns "and" into "&".
pub fn normalize_title(s: &str) -> (r: String)
    ensures
        r@ == title_normalized(s@),
{
    let norm = normalize_str(s);
    let chars = chars_of(norm.as_str());
    proof {
        reveal_strlit("feat");
        reveal_strlit("remastered");
        reveal_strlit("remaster");
        reveal_strlit("live");
        reveal_strlit("and");
    }
    let a = replace_literal(&chars, "feat", "");
    let b = replace_literal(&a, "remastered", "");
    let c = replace_literal(&b, "remaster", "");
    let d = replace_literal(&c, "live", "");
    let e = replace_literal(&d, "and", "&");
    string_of(&e)
}

/// Cuts the space-separated words of `s` into tokens: a word of at most three
/// bytes is one token, a longer one gives its three-byte windows.
/// Every token must fall on character boundaries.
pub fn tokenize(s: &String) -> (r: Vec<String>)
    requires
        trigram_tokenizable(s@),
    ensures
        utf8_of_strings(r@) == trigrams(s@),
{
    match try_tokens(s.as_str().as_bytes(), 3) {
        Some(v) => v,
        None => {
            assert(false);
            Vec::new()
        },
    }
}

/// What a song's metadata must satisfy for its criteria to be built: each
/// normal form can be cut into trigrams.
pub open spec fn criteria_buildable(title: Seq<char>, artists: Seq<char>, album: Seq<char>) -> bool {
    &&& trigram_tokenizable(title_normalized(title))
    &&& trigram_tokenizable(normalized(artists))
    &&& trigram_tokenizable(normalized(album))
}

/// The criteria built from a song's metadata, as the fields hold them.
pub open spec fn criteria_of(
    c: FindMetaCriteria,
    title: Seq<char>,
    duration_ms: u32,
    artists: Seq<char>,
    album: Seq<char>,
) -> bool {
    &&& c.title@ == title_normalized(title)
    &&& c.artists@ == artists
    &&& c.duration_ms == duration_ms
    &&& utf8_of_strings(c.title_tokens@) == trigrams(title_normalized(title))
    &&& utf8_of_strings(c.artist_tokens@) == trigrams(normalized(artists))
    &&& utf8_of_strings(c.album_tokens@) == trigrams(normalized(album))
}

/// What the library is searched for when a song is imported: its normalised
/// title, its artists as given, its duration and the trigram tokens of the
/// normalised title, artists and album.
pub struct FindMetaCriteria {
    pub title: String,
    pub artists: String,
    pub duration_ms: u32,
    pub title_tokens: Vec<String>,
    pub artist_tokens: Vec<String>,
    pub album_tokens: Vec<String>,
}

impl FindMetaCriteria {
    /// Builds the criteria, or gives `None` when some normal form has a trigram
    /// that would cut a character.
    pub fn try_new(title: String, duration_ms: u32, artists: String, album: String) -> (r: Option<
        Self,
    >)
        ensures
            r is Some <==> criteria_buildable(title@, artists@, album@),
            r matches Some(c) ==> criteria_of(c, title@, duration_ms, artists@, album@),
    {
        let title_norm = normalize_title(title.as_str());
        let title_tokens = match try_tokens(title_norm.as_str().as_bytes(), 3) {
            Some(t) => t,
            None => {
                return None;
            },
        };
        let artist_norm = normalize_str(artists.as_str());
        let artist_tokens = match try_tokens(artist_norm.as_str().as_bytes(), 3) {
            Some(t) => t,
            None => {
                return None;
            },
        };
        let album_norm = normalize_str(album.as_str());
        let album_tokens = match try_tokens(album_norm.as_str().as_bytes(), 3) {
            Some(t) => t,
            None => {
                return None;
            },
        };
        Some(
            FindMetaCriteria {
                title: title_norm,
                duration_ms: duration_ms,
                artists: artists,
                title_tokens: title_tokens,
                artist_tokens: artist_tokens,
                album_tokens: album_tokens,
            },
        )
    }

    /// Builds the criteria from a song's title, duration, artists and album.
    pub fn new(title: String, duration_ms: u32, artists: String, album: String) -> (r: Self)
        requires
            criteria_buildable(title@, artists@, album@),
        ensures
            criteria_of(r, title@, duration_ms, artists@, album@),
    {
        match Self::try_new(title, duration_ms, artists, album) {
            Some(c) => c,
            None => {
                assert(false);
                FindMetaCriteria {
                    title: String::new(),
                    duration_ms: 0,
                    artists: String::new(),
                    title_tokens: Vec::new(),
                    artist_tokens: Vec::new(),
                    album_tokens: Vec::new(),
                }
            },
        }
    }
}

/// A song of the library that matched a search, with the weight given to
/// the match.
pub struct MetaMatch {
    pub id: Vec<u8>,
    pub title: String,
    pub weight: u8,
}

/// The weight of a title match.
pub const TITLE_WEIGHT: u8 = 10;

/// The weight of a duration match.
pub const DURATION_WEIGHT: u8 = 15;

/// The weight of an artist match.
pub const ARTIST_WEIGHT: u8 = 8;

/// The weight of an album match.
pub const ALBUM_WEIGHT: u8 = 2;

/// The sum of all weights.
pub const TOTAL_WEIGHT: u8 = 35;

/// How many candidates pruning keeps at most.
pub const MAX_CANDIDATES: usize = 10;

/// The weight every candidate receives: the sum of the weights of the
/// criteria that were searched for (the title always; the duration when
/// known; artist and album when they have tokens), divided by the total with
/// integer division.
pub open spec fn criteria_weight(c: FindMetaCriteria) -> u8 {
    let score = TITLE_WEIGHT + (if c.duration_ms > 0 { DURATION_WEIGHT } else { 0u8 }) + (if c.artist_tokens@.len()
        > 0 {
        ARTIST_WEIGHT
    } else {
        0u8
    }) + (if c.album_tokens@.len() > 0 {
        ALBUM_WEIGHT
    } else {
        0u8
    });
    (score / (TOTAL_WEIGHT as int)) as u8
}

/// A candidate with its weight replaced.
pub open spec fn weighted(m: MetaMatch, w: u8) -> MetaMatch {
    MetaMatch { id: m.id, title: m.title, weight: w }
}

/// The candidates kept by pruning: all reweighted, in their order, at most
/// `MAX_CANDIDATES` of them.
pub open spec fn pruned(candidates: Seq<MetaMatch>, w: u8) -> Seq<MetaMatch> {
    let all = candidates.map_values(|m: MetaMatch| weighted(m, w));
    if all.len() <= MAX_CANDIDATES {
        all
    } else {
        all.take(MAX_CANDIDATES as int)
    }
}

fn weight_for(criteria: &FindMetaCriteria) -> (w: u8)
    ensures
        w == criteria_weight(*criteria),
{
    let mut score = TITLE_WEIGHT;
    if criteria.duration_ms > 0 {
        score = score + DURATION_WEIGHT;
    }
    if criteria.artist_tokens.len() > 0 {
        score = score + ARTIST_WEIGHT;
    }
    if criteria.album_tokens.len() > 0 {
        score = score + ALBUM_WEIGHT;
    }
    score / TOTAL_WEIGHT
}

/// The candidates of a given weight.
pub open spec fn has_weight(w: u8) -> spec_fn(MetaMatch) -> bool {
    |m: MetaMatch| m.weight == w
}

/// The candidates come by ascending weight.
pub open spec fn sorted_by_weight(s: Seq<MetaMatch>) -> bool {
    forall|i: int, j: int| 0 <= i < j < s.len() ==> (#[trigger] s[i]).weight <= (#[trigger] s[j]).weight
}

/// `x` put into `s` after the last candidate whose weight is at most its own.
pub open spec fn insert_by_weight(s: Seq<MetaMatch>, x: MetaMatch) -> Seq<MetaMatch>
    decreases s.len(),
{
    if s.len() == 0 || s.last().weight <= x.weight {
        s.push(x)
    } else {
        insert_by_weight(s.drop_last(), x).push(s.last())
    }
}

/// Inserting where the scan from the back stops.
proof fn lemma_insert_by_weight_at(s: Seq<MetaMatch>, x: MetaMatch, j: int)
    requires
        0 <= j <= s.len(),
        forall|k: int| j <= k < s.len() ==> (#[trigger] s[k]).weight > x.weight,
        j == 0 || s[j - 1].weight <= x.weight,
    ensures
        insert_by_weight(s, x) == s.insert(j, x),
    decreases s.len(),
{
    if j == s.len() {
        assert(s.insert(j, x) =~= s.push(x));
    } else {
        assert(s[s.len() - 1].weight > x.weight);
        lemma_insert_by_weight_at(s.drop_last(), x, j);
        assert(s.drop_last().insert(j, x).push(s.last()) =~= s.insert(j, x));
    }
}

/// Inserting keeps a bound on the weights.
proof fn lemma_insert_by_weight_bound(s: Seq<MetaMatch>, x: MetaMatch, b: u8)
    requires
        forall|k: int| 0 <= k < s.len() ==> (#[trigger] s[k]).weight <= b,
        x.weight <= b,
    ensures
        forall|k: int|
            0 <= k < insert_by_weight(s, x).len() ==> (#[trigger] insert_by_weight(s, x)[k]).weight
                <= b,
        insert_by_weight(s, x).len() == s.len() + 1,
    decreases s.len(),
{
    if s.len() > 0 && s.last().weight > x.weight {
        lemma_insert_by_weight_bound(s.drop_last(), x, b);
        let t = insert_by_weight(s.drop_last(), x);
        assert forall|k: int| 0 <= k < t.push(s.last()).len() implies (#[trigger] t.push(
            s.last(),
        )[k]).weight <= b by {
            if k < t.len() {
                assert(t.push(s.last())[k] == t[k]);
            }
        }
    }
}

/// Inserting into sorted candidates keeps them sorted.
proof fn lemma_insert_by_weight_sorted(s: Seq<MetaMatch>, x: MetaMatch)
    requires
        sorted_by_weight(s),
    ensures
        sorted_by_weight(insert_by_weight(s, x)),
    decreases s.len(),
{
    if s.len() == 0 || s.last().weight <= x.weight {
        assert forall|i: int, j: int|
            0 <= i < j < s.push(x).len() implies (#[trigger] s.push(x)[i]).weight <= (
        #[trigger] s.push(x)[j]).weight by {
            if j == s.len() && i < s.len() {
                assert(s[i].weight <= s[s.len() - 1].weight);
            }
        }
    } else {
        let s2 = s.drop_last();
        let last = s.last();
        lemma_insert_by_weight_sorted(s2, x);
        assert forall|k: int| 0 <= k < s2.len() implies (#[trigger] s2[k]).weight <= last.weight by {
            assert(s[k].weight <= s[s.len() - 1].weight);
        }
        lemma_insert_by_weight_bound(s2, x, last.weight);
        let t = insert_by_weight(s2, x);
        assert forall|i: int, j: int|
            0 <= i < j < t.push(last).len() implies (#[trigger] t.push(last)[i]).weight <= (
        #[trigger] t.push(last)[j]).weight by {
            if j == t.len() {
                assert(t[i].weight <= last.weight);
            } else {
                assert(t.push(last)[i] == t[i] && t.push(last)[j] == t[j]);
            }
        }
    }
}

/// Inserting keeps the candidates of each weight in their order, the new one
/// coming after those of its weight.
proof fn lemma_insert_by_weight_filter(s: Seq<MetaMatch>, x: MetaMatch, w: u8)
    ensures
        insert_by_weight(s, x).filter(has_weight(w)) == s.push(x).filter(has_weight(w)),
    decreases s.len(),
{
    reveal_with_fuel(Seq::filter, 1);
    if s.len() > 0 && s.last().weight > x.weight {
        let s2 = s.drop_last();
        let last = s.last();
        lemma_insert_by_weight_filter(s2, x, w);
        let t = insert_by_weight(s2, x);
        let f = has_weight(w);
        assert(t.push(last).drop_last() =~= t);
        assert(s.push(x).drop_last() =~= s);
        assert(s2.push(x).drop_last() =~= s2);
        assert(s.drop_last() =~= s2);
        let a = s2.filter(f);
        assert(t.filter(f) == s2.push(x).filter(f));
        assert(s2.push(x).filter(f) == if f(x) { a.push(x) } else { a });
        assert(s.filter(f) == if f(last) { a.push(last) } else { a });
        assert(insert_by_weight(s, x) == t.push(last));
        assert(t.push(last).filter(f) == if f(last) { t.filter(f).push(last) } else { t.filter(f) });
        assert(s.push(x).filter(f) == if f(x) { s.filter(f).push(x) } else { s.filter(f) });
    }
}

/// The candidates sorted by weight, stably: each inserted in turn.
pub open spec fn stable_sorted(s: Seq<MetaMatch>) -> Seq<MetaMatch>
    decreases s.len(),
{
    if s.len() == 0 {
        s
    } else {
        insert_by_weight(stable_sorted(s.drop_last()), s.last())
    }
}

/// Sorting gives candidates by ascending weight, and the candidates of each
/// weight in their order.
proof fn lemma_stable_sorted(s: Seq<MetaMatch>)
    ensures
        sorted_by_weight(stable_sorted(s)),
        forall|w: u8| stable_sorted(s).filter(has_weight(w)) == s.filter(has_weight(w)),
    decreases s.len(),
{
    reveal_with_fuel(Seq::filter, 1);
    if s.len() > 0 {
        let s2 = s.drop_last();
        lemma_stable_sorted(s2);
        lemma_insert_by_weight_sorted(stable_sorted(s2), s.last());
        assert forall|w: u8| stable_sorted(s).filter(has_weight(w)) == s.filter(has_weight(w)) by {
            lemma_insert_by_weight_filter(stable_sorted(s2), s.last(), w);
            assert(stable_sorted(s2).push(s.last()).drop_last() =~= stable_sorted(s2));
        }
    }
}

/// Candidates that all have one weight are their own candidates of that
/// weight.
proof fn lemma_filter_all_weight(s: Seq<MetaMatch>, w: u8)
    requires
        forall|i: int| 0 <= i < s.len() ==> (#[trigger] s[i]).weight == w,
    ensures
        s.filter(has_weight(w)) == s,
    decreases s.len(),
{
    reveal_with_fuel(Seq::filter, 1);
    if s.len() > 0 {
        lemma_filter_all_weight(s.drop_last(), w);
        assert(s.drop_last().push(s.last()) =~= s);
    }
}

/// Stable insertion sort of the candidates by ascending weight: the result
/// is sorted by weight and holds, for each weight, the candidates of that
/// weight in their order.
fn sort_by_weight(v: &mut Vec<MetaMatch>)
    ensures
        sorted_by_weight(final(v)@),
        forall|w: u8| final(v)@.filter(has_weight(w)) == old(v)@.filter(has_weight(w)),
{
    let ghost orig = v@;
    let n = v.len();
    let mut i: usize = 0;
    assert(orig.take(0) =~= Seq::<MetaMatch>::empty());
    assert(v@ =~= stable_sorted(orig.take(0)) + orig.skip(0));
    while i < n
        invariant
            n == v@.len(),
            n == orig.len(),
            0 <= i <= n,
            v@ == stable_sorted(orig.take(i as int)) + orig.skip(i as int),
        decreases n - i,
    {
        let ghost p = stable_sorted(orig.take(i as int));
        assert(p.len() == i) by {
            lemma_stable_sorted_len(orig.take(i as int));
        }
        let x = v.remove(i);
        assert(x == orig[i as int]);
        assert(v@ =~= p + orig.skip(i + 1));
        let mut j: usize = i;
        while j > 0 && v[j - 1].weight > x.weight
            invariant
                0 <= j <= i,
                i < n,
                v@ == p + orig.skip(i + 1),
                p.len() == i,
                forall|k: int| j <= k < i ==> (#[trigger] p[k]).weight > x.weight,
            decreases j,
        {
            assert(v@[j - 1] == p[j - 1]);
            j = j - 1;
        }
        proof {
            if j > 0 {
                assert(v@[j - 1] == p[j - 1]);
            }
            lemma_insert_by_weight_at(p, x, j as int);
            assert(orig.take(i + 1).drop_last() =~= orig.take(i as int));
            assert(orig.take(i + 1).last() == x);
        }
        v.insert(j, x);
        assert(v@ =~= p.insert(j as int, x) + orig.skip(i + 1));
        i = i + 1;
    }
    proof {
        assert(orig.take(n as int) =~= orig);
        assert(orig.skip(n as int) =~= Seq::<MetaMatch>::empty());
        assert(v@ =~= stable_sorted(orig));
        lemma_stable_sorted(orig);
    }
}

/// Sorting keeps the number of candidates.
proof fn lemma_stable_sorted_len(s: Seq<MetaMatch>)
    ensures
        stable_sorted(s).len() == s.len(),
    decreases s.len(),
{
    if s.len() > 0 {
        lemma_stable_sorted_len(s.drop_last());
        lemma_insert_by_weight_bound(stable_sorted(s.drop_last()), s.last(), 255);
    }
}

/// Candidates that all have one weight come out of sorting as they went in.
proof fn lemma_sorted_same_weight(before: Seq<MetaMatch>, after: Seq<MetaMatch>, w: u8)
    requires
        forall|i: int| 0 <= i < before.len() ==> (#[trigger] before[i]).weight == w,
        forall|u: u8| after.filter(has_weight(u)) == before.filter(has_weight(u)),
    ensures
        after == before,
{
    reveal_with_fuel(Seq::filter, 1);
    lemma_filter_all_weight(before, w);
    assert forall|i: int| 0 <= i < after.len() implies (#[trigger] after[i]).weight == w by {
        let u = after[i].weight;
        if u != w {
            broadcast use vstd::seq_lib::group_filter_ensures;

            after.lemma_filter_contains(has_weight(u), i);
            assert(after.filter(has_weight(u)).len() > 0);
            lemma_filter_none_weight_of_uniform(before, w, u);
        }
    }
    lemma_filter_all_weight(after, w);
}

/// Candidates that all have one weight hold none of another.
proof fn lemma_filter_none_weight_of_uniform(s: Seq<MetaMatch>, w: u8, u: u8)
    requires
        forall|i: int| 0 <= i < s.len() ==> (#[trigger] s[i]).weight == w,
        u != w,
    ensures
        s.filter(has_weight(u)).len() == 0,
    decreases s.len(),
{
    reveal_with_fuel(Seq::filter, 1);
    if s.len() > 0 {
        lemma_filter_none_weight_of_uniform(s.drop_last(), w, u);
    }
}

/// Gives every candidate the weight of the criteria, sorts them by weight
/// (stably) and keeps the first `MAX_CANDIDATES`.
pub fn prune_by_weight(criteria: FindMetaCriteria, candidates: &mut Vec<MetaMatch>)
    ensures
        final(candidates)@ == pruned(old(candidates)@, criteria_weight(criteria)),
{
    let w = weight_for(&criteria);
    let mut pending: Vec<MetaMatch> = Vec::new();
    std::mem::swap(candidates, &mut pending);
    let ghost orig = pending@;
    let ghost all = orig.map_values(|m: MetaMatch| weighted(m, w));
    while pending.len() > 0
        invariant
            candidates@.len() + pending@.len() == orig.len(),
            candidates@ == all.take(candidates@.len() as int),
            pending@ == orig.skip(candidates@.len() as int),
            all == orig.map_values(|m: MetaMatch| weighted(m, w)),
        decreases pending.len(),
    {
        let ghost k = candidates@.len() as int;
        let c = pending.remove(0);
        assert(c == orig[k]);
        candidates.push(MetaMatch { id: c.id, title: c.title, weight: w });
        assert(candidates@ =~= all.take(k + 1));
        assert(pending@ =~= orig.skip(k + 1));
    }
    assert(candidates@ =~= all);
    let ghost before = candidates@;
    sort_by_weight(candidates);
    proof {
        lemma_sorted_same_weight(before, candidates@, w);
    }
    candidates.truncate(MAX_CANDIDATES);
}

/// Normalising twice gives the same as normalising once, as soon as lower
/// casing leaves the normal form unchanged (which lower casing promises of
/// its own output only through the Unicode tables it follows).
pub proof fn lemma_normalized_idempotent(s: Seq<char>)
    requires
        lowered(normalized(s)) == normalized(s),
    ensures
        normalized(normalized(s)) == normalized(s),
{
    let l = strip_punct(lowered(s));
    lemma_strip_breaks_commute(l);
    lemma_strip_punct_idempotent(lowered(s));
    lemma_breaks_to_spaces_idempotent(l);
}

/// Normalising ASCII text works character by character: a character added at
/// the end is dropped when it is one of `, . - : ; / # \ ` ( )`, becomes a
/// space when it is a line feed, carriage return or tab, and is otherwise
/// kept, with `A` to `Z` put in lower case.
pub proof fn lemma_normalized_push_ascii(s: Seq<char>, c: char)
    requires
        is_ascii_chars(s),
        '\0' <= c <= '\u{7f}',
    ensures
        normalized(s.push(c)) == (if c == ',' || c == '.' || c == '-' || c == ':' || c == ';' || c
            == '/' || c == '#' || c == '\\' || c == '`' || c == '(' || c == ')' {
            normalized(s)
        } else if c == '\n' || c == '\r' || c == '\t' {
            normalized(s).push(' ')
        } else if 'A' <= c <= 'Z' {
            normalized(s).push(((c as u32) + 32) as char)
        } else {
            normalized(s).push(c)
        }),
{
    let t = s.push(c);
    assert(is_ascii_chars(t)) by {
        assert forall|i: int| 0 <= i < t.len() implies '\0' <= #[trigger] t[i] <= '\u{7f}' by {
            if i < s.len() {
                assert(t[i] == s[i]);
            }
        }
    }
    assert(ascii_lower(t) =~= ascii_lower(s).push(ascii_lower_char(c)));
    let l = ascii_lower_char(c);
    lemma_strip_punct_exact(ascii_lower(s), l);
    let k = strip_punct(ascii_lower(s));
    assert(breaks_to_spaces(k.push(l)) =~= breaks_to_spaces(k).push(
        if is_layout_break(l) {
            ' '
        } else {
            l
        },
    ));
}

/// A title's normal form is its string normal form with five replacements
/// applied one after the other, each to the result of the one before:
/// "feat" removed, then "remastered", then "remaster", then "live", and
/// finally "and" turned into "&".
pub proof fn lemma_title_replacements(s: Seq<char>)
    ensures
        title_normalized(s) == replace_all(
            replace_all(
                replace_all(
                    replace_all(replace_all(normalized(s), "feat"@, ""@), "remastered"@, ""@),
                    "remaster"@,
                    ""@,
                ),
                "live"@,
                ""@,
            ),
            "and"@,
            "&"@,
        ),
{
}

/// A title whose normal form is "remaster" followed by a text in which
/// neither "remaster", "live" nor "and" occurs, the whole holding neither
/// "feat" nor "remastered", comes out as that text: the "remaster" goes.
pub proof fn lemma_title_drops_remaster(s: Seq<char>, t: Seq<char>)
    requires
        normalized(s) == "remaster"@ + t,
        occurs_nowhere(normalized(s), "feat"@),
        occurs_nowhere(normalized(s), "remastered"@),
        occurs_nowhere(t, "remaster"@),
        occurs_nowhere(t, "live"@),
        occurs_nowhere(t, "and"@),
    ensures
        title_normalized(s) == t,
{
    reveal_strlit("feat");
    reveal_strlit("remastered");
    reveal_strlit("remaster");
    reveal_strlit("live");
    reveal_strlit("and");
    reveal_strlit("");
    lemma_replace_all_absent(normalized(s), "feat"@, ""@);
    lemma_replace_all_absent(normalized(s), "remastered"@, ""@);
    lemma_replace_all_front("remaster"@, t, ""@);
    lemma_replace_all_absent(t, "remaster"@, ""@);
    assert(""@ + t =~= t);
    lemma_replace_all_absent(t, "live"@, ""@);
    lemma_replace_all_absent(t, "and"@, "&"@);
}

/// The normal form of ASCII text is ASCII and is its own lowercase.
pub proof fn lemma_normalized_ascii(s: Seq<char>)
    requires
        is_ascii_chars(s),
    ensures
        is_ascii_chars(normalized(s)),
        lowered(normalized(s)) == normalized(s),
{
    let l = ascii_lower(s);
    let k = strip_punct(l);
    let n = breaks_to_spaces(k);
    lemma_ascii_lower(s);
    lemma_strip_punct_from(l);
    assert forall|i: int| 0 <= i < n.len() implies ascii_lower_char(#[trigger] n[i]) == n[i]
        && '\0' <= n[i] <= '\u{7f}' by {
        assert(l.contains(k[i]));
        let j = choose|j: int| 0 <= j < l.len() && l[j] == k[i];
        assert(ascii_lower_char(l[j]) == l[j]);
    }
    lemma_lowered_fixed(n);
}

/// Normalising ASCII text twice gives the same as normalising it once.
pub proof fn lemma_normalized_idempotent_ascii(s: Seq<char>)
    requires
        is_ascii_chars(s),
    ensures
        normalized(normalized(s)) == normalized(s),
{
    lemma_normalized_ascii(s);
    lemma_normalized_idempotent(s);
}

/// The criteria hold the trigrams of their own normalised title.
pub proof fn lemma_criteria_title_tokens(
    c: FindMetaCriteria,
    title: Seq<char>,
    duration_ms: u32,
    artists: Seq<char>,
    album: Seq<char>,
)
    requires
        criteria_of(c, title, duration_ms, artists, album),
    ensures
        utf8_of_strings(c.title_tokens@) == trigrams(c.title@),
{
}

/// Pruning keeps at most `MAX_CANDIDATES` candidates, all with one weight of
/// at most 1, and keeps the first candidates in their order.
pub proof fn lemma_pruned(candidates: Seq<MetaMatch>, c: FindMetaCriteria)
    ensures
        pruned(candidates, criteria_weight(c)).len() <= MAX_CANDIDATES,
        pruned(candidates, criteria_weight(c)).len() == if candidates.len() <= MAX_CANDIDATES {
            candidates.len()
        } else {
            MAX_CANDIDATES as nat
        },
        criteria_weight(c) <= 1,
        forall|i: int|
            0 <= i < pruned(candidates, criteria_weight(c)).len() ==> {
                let m = #[trigger] pruned(candidates, criteria_weight(c))[i];
                &&& m.weight == criteria_weight(c)
                &&& m.id == candidates[i].id
                &&& m.title == candidates[i].title
            },
{
}

/// A candidate weighs 1 exactly when everything about the song is known:
/// its duration, its artist and its album have something to match on;
/// otherwise every candidate weighs 0. Pruning gives every kept candidate
/// that weight.
pub proof fn lemma_weight_full_criteria(candidates: Seq<MetaMatch>, c: FindMetaCriteria)
    ensures
        criteria_weight(c) == (if c.duration_ms > 0 && c.artist_tokens@.len() > 0
            && c.album_tokens@.len() > 0 {
            1u8
        } else {
            0u8
        }),
        forall|i: int|
            0 <= i < pruned(candidates, criteria_weight(c)).len() ==> (#[trigger] pruned(
                candidates,
                criteria_weight(c),
            )[i]).weight == (if c.duration_ms > 0 && c.artist_tokens@.len() > 0
                && c.album_tokens@.len() > 0 {
                1u8
            } else {
                0u8
            }),
{
}

/// A normal form holds none of the dropped punctuation, and no line feed,
/// carriage return or tab.
pub proof fn lemma_normalized_has_no_punct(s: Seq<char>)
    ensures
        forall|i: int|
            0 <= i < normalized(s).len() ==> !is_dropped_punct(#[trigger] normalized(s)[i])
                && !is_layout_break(normalized(s)[i]),
{
    let l = strip_punct(lowered(s));
    lemma_strip_punct_removes(lowered(s));
    assert forall|i: int| 0 <= i < normalized(s).len() implies !is_dropped_punct(
        #[trigger] normalized(s)[i],
    ) && !is_layout_break(normalized(s)[i]) by {
        assert(!is_dropped_punct(l[i]));
    }
}

} // verus!
