//! Normalisation and trigram tokenisation of song metadata, and the criteria
//! used to prune duplicates.
use vstd::prelude::*;
use vstd::utf8::*;
use crate::storage::strip::{
    is_dropped_punct, lemma_strip_punct_exact, lemma_strip_punct_from, lemma_strip_punct_idempotent, lemma_strip_punct_removes,
    replace_literal, strip_punct, strip_punct_chars,
};
use crate::storage::words::{
    all_tokens, lemma_all_tokens_empty, lemma_text_tokens_join, tokenizable, try_tokens,
    utf8_of_strings,
};
use crate::text::{
    lemma_replace_all_absent, lemma_replace_all_front, occurs_nowhere, ascii_lower, ascii_lower_char, chars_of, lemma_ascii_lower, lemma_lowered_fixed, lowered,
    replace_all, string_of, to_lowercase,
};

verus! {

/// The normal form of a metadata string: lower case, without the dropped
/// punctuation.
pub open spec fn normalized(s: Seq<char>) -> Seq<char> {
    strip_punct(lowered(s))
}

/// The normal form of a title: the normal form of the string, then "feat",
/// "remastered", "remaster" and "live" removed and "and" turned into "&",
/// each replacement applied to the result of the one before.
pub open spec fn title_normalized(s: Seq<char>) -> Seq<char> {
    let n = normalized(s);
    let a = replace_all(n, "feat"@, ""@);
    let b = replace_all(a, "remastered"@, ""@);
    let c = replace_all(b, "remaster"@, ""@);
    let d = replace_all(c, "live"@, ""@);
    replace_all(d, "and"@, "&"@)
}

/// The trigram tokens of a text, as strings' UTF-8 bytes.
pub open spec fn trigrams(s: Seq<char>) -> Seq<Seq<u8>> {
    all_tokens(encode_utf8(s), 3)
}

/// Lower-cases `s` and removes the punctuation `, . - : ; / # \ ` ( )`.
pub fn normalize_str(s: &str) -> (r: String)
    ensures
        r@ == normalized(s@),
{
    let lower = to_lowercase(s);
    let chars = chars_of(lower.as_str());
    let kept = strip_punct_chars(&chars);
    string_of(&kept)
}

/// Normalises a song title: `normalize_str`, then removes "feat",
/// "remastered", "remaster", "live" and turns "and" into "&".
pub fn normalize_title(s: &str) -> (r: String)
    ensures
        r@ == title_normalized(s@),
{
    let norm = normalize_str(s);
    let chars = chars_of(norm.as_str());
    proof {
        reveal_strlit("feat");
        reveal_strlit("remastered");
        reveal_strlit("remaster");
        reveal_strlit("live");
        reveal_strlit("and");
    }
    let a = replace_literal(&chars, "feat", "");
    let b = replace_literal(&a, "remastered", "");
    let c = replace_literal(&b, "remaster", "");
    let d = replace_literal(&c, "live", "");
    let e = replace_literal(&d, "and", "&");
    string_of(&e)
}

/// Cuts the space-separated words of `s` into tokens: a word of at most
/// three bytes is one token, a longer one gives its three-byte windows.
/// Every token must fall on character boundaries.
pub fn tokenize(s: String) -> (r: Vec<String>)
    requires
        tokenizable(encode_utf8(s@), 3),
    ensures
        utf8_of_strings(r@) == trigrams(s@),
{
    match try_tokens(s.as_str().as_bytes(), 3) {
        Some(v) => v,
        None => {
            assert(false);
            Vec::new()
        },
    }
}

/// The trigram tokens of each artist's normal form, artist after artist.
pub open spec fn artists_trigrams(artists: Seq<String>) -> Seq<Seq<u8>>
    decreases artists.len(),
{
    if artists.len() == 0 {
        seq![]
    } else {
        artists_trigrams(artists.drop_last()) + trigrams(normalized(artists.last()@))
    }
}

/// Every artist's normal form can be cut into tokens.
pub open spec fn artists_tokenizable(artists: Seq<String>) -> bool {
    forall|i: int|
        0 <= i < artists.len() ==> tokenizable(encode_utf8(normalized(#[trigger] artists[i]@)), 3)
}

/// What a `PruneDuplicataCriteria` holds.
pub ghost struct PruneCriteriaView {
    pub title_tokens: Seq<Seq<u8>>,
    pub duration_ms: Option<u32>,
    pub artist_tokens: Seq<Seq<u8>>,
}

/// Tokens of a song's normalised title and artists, used to recognise the
/// same song among candidates.
pub struct PruneDuplicataCriteria {
    title_tokens: Vec<String>,
    duartion_ms: Option<u32>,
    artist_tokens: Vec<String>,
}

impl View for PruneDuplicataCriteria {
    type V = PruneCriteriaView;

    closed spec fn view(&self) -> PruneCriteriaView {
        PruneCriteriaView {
            title_tokens: utf8_of_strings(self.title_tokens@),
            duration_ms: self.duartion_ms,
            artist_tokens: utf8_of_strings(self.artist_tokens@),
        }
    }
}

impl PruneDuplicataCriteria {
    /// Builds the criteria, or gives `None` when some normalised title or
    /// artist has a token that would cut a character.
    pub fn try_new(title: String, duration_ms: Option<u32>, artists: Vec<String>) -> (r: Option<Self>)
        ensures
            r is Some <==> (tokenizable(encode_utf8(title_normalized(title@)), 3)
                && artists_tokenizable(artists@)),
            r matches Some(c) ==> c@ == (PruneCriteriaView {
                title_tokens: trigrams(title_normalized(title@)),
                duration_ms,
                artist_tokens: artists_trigrams(artists@),
            }),
    {
        let title_norm = normalize_title(title.as_str());
        let title_tokens = match try_tokens(title_norm.as_str().as_bytes(), 3) {
            Some(t) => t,
            None => {
                return None;
            },
        };
        let mut artist_tokens: Vec<String> = Vec::new();
        let mut i: usize = 0;
        while i < artists.len()
            invariant
                0 <= i <= artists.len(),
                utf8_of_strings(artist_tokens@) == artists_trigrams(artists@.take(i as int)),
                artists_tokenizable(artists@.take(i as int)),
            decreases artists.len() - i,
        {
            assert(artists@.take(i + 1).drop_last() =~= artists@.take(i as int));
            let norm = normalize_str(artists[i].as_str());
            let mut toks = match try_tokens(norm.as_str().as_bytes(), 3) {
                Some(t) => t,
                None => {
                    assert(!artists_tokenizable(artists@)) by {
                        assert(!tokenizable(encode_utf8(normalized(artists@[i as int]@)), 3));
                    }
                    return None;
                },
            };
            let ghost before = artist_tokens@;
            artist_tokens.append(&mut toks);
            assert(utf8_of_strings(artist_tokens@) =~= utf8_of_strings(before) + trigrams(
                normalized(artists@[i as int]@),
            ));
            assert(artists_tokenizable(artists@.take(i + 1))) by {
                assert forall|j: int| 0 <= j < i + 1 implies tokenizable(
                    encode_utf8(normalized(#[trigger] artists@.take(i + 1)[j]@)),
                    3,
                ) by {
                    if j < i {
                        assert(artists@.take(i + 1)[j] == artists@.take(i as int)[j]);
                    }
                }
            }
            i = i + 1;
        }
        assert(artists@.take(artists.len() as int) =~= artists@);
        Some(PruneDuplicataCriteria { title_tokens, duartion_ms: duration_ms, artist_tokens })
    }

    /// Builds the criteria from a song's title, optional duration and artists.
    pub fn new(title: String, duration_ms: Option<u32>, artists: Vec<String>) -> (r: Self)
        requires
            tokenizable(encode_utf8(title_normalized(title@)), 3),
            artists_tokenizable(artists@),
        ensures
            r@ == (PruneCriteriaView {
                title_tokens: trigrams(title_normalized(title@)),
                duration_ms,
                artist_tokens: artists_trigrams(artists@),
            }),
    {
        match Self::try_new(title, duration_ms, artists) {
            Some(c) => c,
            None => {
                assert(false);
                PruneDuplicataCriteria {
                    title_tokens: Vec::new(),
                    duartion_ms: None,
                    artist_tokens: Vec::new(),
                }
            },
        }
    }

    /// The title's tokens.
    pub fn title_tokens(&self) -> (r: &Vec<String>)
        ensures
            utf8_of_strings(r@) == self@.title_tokens,
    {
        &self.title_tokens
    }

    /// The song's duration, when known.
    pub fn duration_ms(&self) -> (r: Option<u32>)
        ensures
            r == self@.duration_ms,
    {
        self.duartion_ms
    }

    /// The artists' tokens.
    pub fn artist_tokens(&self) -> (r: &Vec<String>)
        ensures
            utf8_of_strings(r@) == self@.artist_tokens,
    {
        &self.artist_tokens
    }
}

/// Normalising twice gives the same as normalising once, as soon as lower
/// casing leaves the normal form unchanged (which lower casing promises of
/// its own output only through the Unicode tables it follows).
pub proof fn lemma_normalized_idempotent(s: Seq<char>)
    requires
        lowered(normalized(s)) == normalized(s),
    ensures
        normalized(normalized(s)) == normalized(s),
{
    lemma_strip_punct_idempotent(lowered(s));
}

/// Words are tokenised one by one: the trigrams of two texts joined by a
/// space are the trigrams of the first followed by those of the second, and
/// the joined text can be tokenised exactly when both parts can.
pub proof fn lemma_trigrams_join(a: Seq<char>, b: Seq<char>)
    ensures
        trigrams(a + seq![' '] + b) == trigrams(a) + trigrams(b),
        tokenizable(encode_utf8(a + seq![' '] + b), 3) <==> tokenizable(encode_utf8(a), 3)
            && tokenizable(encode_utf8(b), 3),
{
    lemma_text_tokens_join(a, b, 3);
}

/// A text without characters has no trigrams, so spaces before, after or
/// between words change no trigram.
pub proof fn lemma_trigrams_spaces(a: Seq<char>, b: Seq<char>)
    ensures
        trigrams(Seq::<char>::empty()) == Seq::<Seq<u8>>::empty(),
        trigrams(seq![' '] + a) == trigrams(a),
        trigrams(a + seq![' ']) == trigrams(a),
        trigrams(a + seq![' ', ' '] + b) == trigrams(a + seq![' '] + b),
{
    let e = Seq::<char>::empty();
    lemma_all_tokens_empty(3);
    lemma_text_tokens_join(e, a, 3);
    assert(e + seq![' '] + a =~= seq![' '] + a);
    assert(Seq::<Seq<u8>>::empty() + trigrams(a) =~= trigrams(a));
    lemma_text_tokens_join(a, e, 3);
    assert(a + seq![' '] + e =~= a + seq![' ']);
    assert(trigrams(a) + Seq::<Seq<u8>>::empty() =~= trigrams(a));
    lemma_text_tokens_join(a + seq![' '], b, 3);
    assert(a + seq![' '] + seq![' '] + b =~= a + seq![' ', ' '] + b);
    lemma_text_tokens_join(a, b, 3);
}

/// Normalising ASCII text works character by character: a character added at
/// the end is dropped when it is one of `, . - : ; / # \ ` ( )`, and is
/// otherwise kept, with `A` to `Z` put in lower case.
pub proof fn lemma_normalized_push_ascii(s: Seq<char>, c: char)
    requires
        is_ascii_chars(s),
        '\0' <= c <= '\u{7f}',
    ensures
        normalized(s.push(c)) == (if c == ',' || c == '.' || c == '-' || c == ':' || c == ';' || c
            == '/' || c == '#' || c == '\\' || c == '`' || c == '(' || c == ')' {
            normalized(s)
        } else if 'A' <= c <= 'Z' {
            normalized(s).push(((c as u32) + 32) as char)
        } else {
            normalized(s).push(c)
        }),
{
    let t = s.push(c);
    assert(is_ascii_chars(t)) by {
        assert forall|i: int| 0 <= i < t.len() implies '\0' <= #[trigger] t[i] <= '\u{7f}' by {
            if i < s.len() {
                assert(t[i] == s[i]);
            }
        }
    }
    assert(ascii_lower(t) =~= ascii_lower(s).push(ascii_lower_char(c)));
    lemma_strip_punct_exact(ascii_lower(s), ascii_lower_char(c));
}

/// A title's normal form is its string normal form with five replacements
/// applied one after the other, each to the result of the one before:
/// "feat" removed, then "remastered", then "remaster", then "live", and
/// finally "and" turned into "&".
pub proof fn lemma_title_replacements(s: Seq<char>)
    ensures
        title_normalized(s) == replace_all(
            replace_all(
                replace_all(
                    replace_all(replace_all(normalized(s), "feat"@, ""@), "remastered"@, ""@),
                    "remaster"@,
                    ""@,
                ),
                "live"@,
                ""@,
            ),
            "and"@,
            "&"@,
        ),
{
}

/// A title whose normal form is "remaster" followed by a text in which
/// neither "remaster", "live" nor "and" occurs, the whole holding neither
/// "feat" nor "remastered", comes out as that text: the "remaster" goes.
pub proof fn lemma_title_drops_remaster(s: Seq<char>, t: Seq<char>)
    requires
        normalized(s) == "remaster"@ + t,
        occurs_nowhere(normalized(s), "feat"@),
        occurs_nowhere(normalized(s), "remastered"@),
        occurs_nowhere(t, "remaster"@),
        occurs_nowhere(t, "live"@),
        occurs_nowhere(t, "and"@),
    ensures
        title_normalized(s) == t,
{
    reveal_strlit("feat");
    reveal_strlit("remastered");
    reveal_strlit("remaster");
    reveal_strlit("live");
    reveal_strlit("and");
    reveal_strlit("");
    lemma_replace_all_absent(normalized(s), "feat"@, ""@);
    lemma_replace_all_absent(normalized(s), "remastered"@, ""@);
    lemma_replace_all_front("remaster"@, t, ""@);
    lemma_replace_all_absent(t, "remaster"@, ""@);
    assert(""@ + t =~= t);
    lemma_replace_all_absent(t, "live"@, ""@);
    lemma_replace_all_absent(t, "and"@, "&"@);
}

/// The normal form of ASCII text is ASCII and is its own lowercase.
pub proof fn lemma_normalized_ascii(s: Seq<char>)
    requires
        is_ascii_chars(s),
    ensures
        is_ascii_chars(normalized(s)),
        lowered(normalized(s)) == normalized(s),
{
    let l = ascii_lower(s);
    let n = strip_punct(l);
    lemma_ascii_lower(s);
    lemma_strip_punct_from(l);
    assert forall|i: int| 0 <= i < n.len() implies ascii_lower_char(#[trigger] n[i]) == n[i]
        && '\0' <= n[i] <= '\u{7f}' by {
        assert(l.contains(n[i]));
        let j = choose|j: int| 0 <= j < l.len() && l[j] == n[i];
        assert(ascii_lower_char(l[j]) == l[j]);
    }
    lemma_lowered_fixed(n);
}

/// Normalising ASCII text twice gives the same as normalising it once.
pub proof fn lemma_normalized_idempotent_ascii(s: Seq<char>)
    requires
        is_ascii_chars(s),
    ensures
        normalized(normalized(s)) == normalized(s),
{
    lemma_normalized_ascii(s);
    lemma_normalized_idempotent(s);
}

/// A normal form holds none of the dropped punctuation.
pub proof fn lemma_normalized_has_no_punct(s: Seq<char>)
    ensures
        forall|i: int| 0 <= i < normalized(s).len() ==> !is_dropped_punct(#[trigger] normalized(s)[i]),
{
    lemma_strip_punct_removes(lowered(s));
}

} // verus!
