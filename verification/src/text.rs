//! Character-level string facilities shared by the normalisers, the tokenisers
//! and the processor: conversions between `str`, `String` and `Vec<char>`,
//! pattern replacement, trimming, and the few std calls that are taken on trust.
use vstd::prelude::*;
use vstd::utf8::*;

verus! {

/// What `str::to_lowercase` returns for a string: the lowercase mapping of the
/// Unicode Derived Core Property `Lowercase`, applied with its context rules.
pub uninterp spec fn lowercase_of(s: Seq<char>) -> Seq<char>;

/// The ASCII lowercase of a character: `'A'..='Z'` become `'a'..='z'`, every
/// other character is kept.
pub open spec fn ascii_lower_char(c: char) -> char {
    if 'A' <= c && c <= 'Z' {
        ((c as u32) + 32) as char
    } else {
        c
    }
}

/// `s` with each character put in ASCII lowercase.
pub open spec fn ascii_lower(s: Seq<char>) -> Seq<char> {
    s.map_values(|c: char| ascii_lower_char(c))
}

/// The lowercase of a string: on ASCII text the ASCII mapping, elsewhere
/// what `str::to_lowercase` gives.
pub open spec fn lowered(s: Seq<char>) -> Seq<char> {
    if is_ascii_chars(s) {
        ascii_lower(s)
    } else {
        lowercase_of(s)
    }
}

/// ASCII lowercase keeps text ASCII, and lower-casing it again changes
/// nothing.
pub proof fn lemma_ascii_lower(s: Seq<char>)
    requires
        is_ascii_chars(s),
    ensures
        is_ascii_chars(ascii_lower(s)),
        ascii_lower(ascii_lower(s)) == ascii_lower(s),
        forall|i: int| 0 <= i < ascii_lower(s).len() ==> ascii_lower_char(#[trigger] ascii_lower(s)[i]) == ascii_lower(s)[i],
{
    assert forall|i: int| 0 <= i < ascii_lower(s).len() implies ascii_lower_char(#[trigger] ascii_lower(s)[i]) == ascii_lower(s)[i]
        && '\0' <= ascii_lower(s)[i] <= '\u{7f}' by {
        let c = s[i];
        assert(ascii_lower(s)[i] == ascii_lower_char(c));
    }
    assert(ascii_lower(ascii_lower(s)) =~= ascii_lower(s));
}

/// Text whose characters are all their own ASCII lowercase is unchanged by
/// lower-casing.
pub proof fn lemma_lowered_fixed(s: Seq<char>)
    requires
        is_ascii_chars(s),
        forall|i: int| 0 <= i < s.len() ==> ascii_lower_char(#[trigger] s[i]) == s[i],
    ensures
        lowered(s) == s,
{
    assert(ascii_lower(s) =~= s);
}

/// Calls `str::to_lowercase`. On ASCII text the Unicode lowercase mapping
/// turns `A` to `Z` into `a` to `z` and keeps every other character, which
/// the contract states; beyond ASCII it names the result `lowercase_of` of the
/// input's characters and says nothing more of it: the Unicode case tables
/// are not restated here.
#[verifier::external_body]
pub(crate) fn to_lowercase(s: &str) -> (r: String)
    ensures
        r@ == (if is_ascii_chars(s@) {
            ascii_lower(s@)
        } else {
            lowercase_of(s@)
        }),
{
    s.to_lowercase()
}

/// Whether a character has the Unicode `White_Space` property, the rule of
/// `char::is_whitespace`: tab to carriage return, space, next line, no-break
/// space, ogham space mark, en quad to hair space, line separator, paragraph
/// separator, narrow no-break space, medium mathematical space and
/// ideographic space.
pub open spec fn white_space(c: char) -> bool {
    let u = c as u32;
    ||| 0x09 <= u <= 0x0d
    ||| u == 0x20
    ||| u == 0x85
    ||| u == 0xa0
    ||| u == 0x1680
    ||| 0x2000 <= u <= 0x200a
    ||| u == 0x2028
    ||| u == 0x2029
    ||| u == 0x202f
    ||| u == 0x205f
    ||| u == 0x3000
}

/// Whether `c` is white space (see `white_space`).
pub fn is_whitespace(c: char) -> (r: bool)
    ensures
        r == white_space(c),
{
    let u = c as u32;
    (0x09 <= u && u <= 0x0d) || u == 0x20 || u == 0x85 || u == 0xa0 || u == 0x1680 || (0x2000 <= u
        && u <= 0x200a) || u == 0x2028 || u == 0x2029 || u == 0x202f || u == 0x205f || u == 0x3000
}

/// Calls `String::push`, which appends one character.
#[verifier::external_body]
pub(crate) fn push_char(s: &mut String, c: char)
    ensures
        final(s)@ == old(s)@.push(c),
{
    s.push(c)
}

/// Calls `std::str::from_utf8`: the bytes are accepted exactly when they are
/// valid UTF-8, and then the string's UTF-8 encoding is those bytes.
#[verifier::external_body]
pub(crate) fn str_from_utf8(bytes: &[u8]) -> (r: Option<&str>)
    ensures
        r is Some <==> valid_utf8(bytes@),
        r matches Some(s) ==> encode_utf8(s@) == bytes@,
{
    match std::str::from_utf8(bytes) {
        Ok(s) => Some(s),
        Err(_) => None,
    }
}

/// The characters of `s`, in order.
pub fn chars_of(s: &str) -> (v: Vec<char>)
    ensures
        v@ == s@,
{
    let mut v: Vec<char> = Vec::new();
    for c in it: s.chars()
        invariant
            v@ == it.seq().take(it.index() as int),
    {
        v.push(c);
    }
    v
}

/// A `String` holding the given characters.
pub fn string_of(v: &Vec<char>) -> (s: String)
    ensures
        s@ == v@,
{
    let mut s = String::new();
    let mut i: usize = 0;
    while i < v.len()
        invariant
            0 <= i <= v.len(),
            s@ == v@.take(i as int),
        decreases v.len() - i,
    {
        push_char(&mut s, v[i]);
        assert(v@.take(i + 1) == v@.take(i as int).push(v@[i as int]));
        i = i + 1;
    }
    assert(v@.take(v.len() as int) == v@);
    s
}

/// Appends the characters of `src` to `out`.
pub fn append_chars(out: &mut Vec<char>, src: &Vec<char>)
    ensures
        final(out)@ == old(out)@ + src@,
{
    let mut i: usize = 0;
    while i < src.len()
        invariant
            0 <= i <= src.len(),
            out@ == old(out)@ + src@.take(i as int),
        decreases src.len() - i,
    {
        out.push(src[i]);
        assert(src@.take(i + 1) == src@.take(i as int).push(src@[i as int]));
        i = i + 1;
    }
    assert(src@.take(src.len() as int) == src@);
}

/// `s` with every non-overlapping occurrence of `pat`, found from left to
/// right, replaced by `rep` (the matching rule of `str::replace`).
pub open spec fn replace_all(s: Seq<char>, pat: Seq<char>, rep: Seq<char>) -> Seq<char>
    decreases s.len(),
{
    if s.len() == 0 || pat.len() == 0 {
        s
    } else if pat.len() <= s.len() && s.take(pat.len() as int) == pat {
        rep + replace_all(s.skip(pat.len() as int), pat, rep)
    } else {
        seq![s[0]] + replace_all(s.skip(1), pat, rep)
    }
}

/// `pat` occurs nowhere in `s`.
pub open spec fn occurs_nowhere(s: Seq<char>, pat: Seq<char>) -> bool {
    forall|i: int, j: int|
        0 <= i && j == i + pat.len() && j <= s.len() ==> #[trigger] s.subrange(i, j) != pat
}

/// Replacing a pattern that occurs nowhere changes nothing.
pub proof fn lemma_replace_all_absent(s: Seq<char>, pat: Seq<char>, rep: Seq<char>)
    requires
        pat.len() > 0,
        occurs_nowhere(s, pat),
    ensures
        replace_all(s, pat, rep) == s,
    decreases s.len(),
{
    if s.len() > 0 {
        if pat.len() <= s.len() {
            assert(s.take(pat.len() as int) =~= s.subrange(0, pat.len() as int));
            assert(s.subrange(0, pat.len() as int) != pat);
        }
        let t = s.skip(1);
        assert forall|i: int, j: int|
            0 <= i && j == i + pat.len() && j <= t.len() implies #[trigger] t.subrange(i, j)
            != pat by {
            assert(t.subrange(i, j) =~= s.subrange(i + 1, j + 1));
        }
        lemma_replace_all_absent(t, pat, rep);
        assert(seq![s[0]] + t =~= s);
    }
}

/// A text that starts with the pattern has the replacement first, then the
/// rest of the text with its own replacements.
pub proof fn lemma_replace_all_front(pat: Seq<char>, t: Seq<char>, rep: Seq<char>)
    requires
        pat.len() > 0,
    ensures
        replace_all(pat + t, pat, rep) == rep + replace_all(t, pat, rep),
{
    let s = pat + t;
    assert(s.take(pat.len() as int) =~= pat);
    assert(s.skip(pat.len() as int) =~= t);
}

/// Whether `pat` occurs in `s` starting at index `i`.
pub fn occurs_at(s: &Vec<char>, i: usize, pat: &Vec<char>) -> (r: bool)
    requires
        i <= s.len(),
    ensures
        r == (pat.len() <= s.len() - i && s@.skip(i as int).take(pat.len() as int) == pat@),
{
    if pat.len() > s.len() - i {
        return false;
    }
    let mut k: usize = 0;
    while k < pat.len()
        invariant
            i <= s.len(),
            pat.len() <= s.len() - i,
            0 <= k <= pat.len(),
            forall|j: int| 0 <= j < k ==> s@[i + j] == pat@[j],
        decreases pat.len() - k,
    {
        if s[i + k] != pat[k] {
            assert(s@.skip(i as int).take(pat.len() as int)[k as int] != pat@[k as int]);
            return false;
        }
        k = k + 1;
    }
    assert(s@.skip(i as int).take(pat.len() as int) =~= pat@);
    true
}

/// Replaces every non-overlapping occurrence of a non-empty `pat`, scanning
/// from the left, by `rep`.
pub fn replace_chars(s: &Vec<char>, pat: &Vec<char>, rep: &Vec<char>) -> (r: Vec<char>)
    requires
        pat.len() > 0,
    ensures
        r@ == replace_all(s@, pat@, rep@),
{
    let mut out: Vec<char> = Vec::new();
    let mut i: usize = 0;
    assert(s@.skip(0) == s@);
    assert(out@ + replace_all(s@, pat@, rep@) == replace_all(s@, pat@, rep@));
    while i < s.len()
        invariant
            0 <= i <= s.len(),
            pat.len() > 0,
            out@ + replace_all(s@.skip(i as int), pat@, rep@) == replace_all(s@, pat@, rep@),
        decreases s.len() - i,
    {
        let ghost rest = s@.skip(i as int);
        if occurs_at(s, i, pat) {
            assert(rest.skip(pat.len() as int) == s@.skip(i + pat.len()));
            assert(replace_all(rest, pat@, rep@) == rep@ + replace_all(
                s@.skip(i + pat.len()),
                pat@,
                rep@,
            ));
            append_chars(&mut out, rep);
            assert(out@ + replace_all(s@.skip(i + pat.len()), pat@, rep@) == replace_all(
                s@,
                pat@,
                rep@,
            ));
            i = i + pat.len();
        } else {
            assert(rest.skip(1) == s@.skip(i + 1));
            assert(rest[0] == s@[i as int]);
            assert(replace_all(rest, pat@, rep@) == seq![s@[i as int]] + replace_all(
                s@.skip(i + 1),
                pat@,
                rep@,
            ));
            out.push(s[i]);
            assert(out@ + replace_all(s@.skip(i + 1), pat@, rep@) == replace_all(
                s@,
                pat@,
                rep@,
            ));
            i = i + 1;
        }
    }
    assert(s@.skip(i as int).len() == 0);
    assert(out@ + Seq::<char>::empty() == out@);
    out
}

/// `s` with the leading and trailing characters of the `White_Space`
/// property removed (the rule of `str::trim`).
pub open spec fn trim_white(s: Seq<char>) -> Seq<char> {
    let lead = leading_white(s);
    let rest = s.skip(lead);
    rest.take(rest.len() - trailing_white(rest))
}

/// How many characters at the front of `s` are white space.
pub open spec fn leading_white(s: Seq<char>) -> int
    decreases s.len(),
{
    if s.len() == 0 || !white_space(s[0]) {
        0
    } else {
        1 + leading_white(s.skip(1))
    }
}

/// How many characters at the back of `s` are white space.
pub open spec fn trailing_white(s: Seq<char>) -> int
    decreases s.len(),
{
    if s.len() == 0 || !white_space(s.last()) {
        0
    } else {
        1 + trailing_white(s.drop_last())
    }
}

/// `s` without its leading and trailing white space (see `trim_white`).
pub fn trim_chars(s: &Vec<char>) -> (r: Vec<char>)
    ensures
        r@ == trim_white(s@),
{
    let mut lead: usize = 0;
    assert(s@.skip(0) =~= s@);
    while lead < s.len() && is_whitespace(s[lead])
        invariant
            0 <= lead <= s.len(),
            leading_white(s@) == lead + leading_white(s@.skip(lead as int)),
        decreases s.len() - lead,
    {
        assert(s@.skip(lead as int).skip(1) =~= s@.skip(lead + 1));
        lead = lead + 1;
    }
    assert(leading_white(s@.skip(lead as int)) == 0);
    let mut end: usize = s.len();
    while end > lead && is_whitespace(s[end - 1])
        invariant
            lead <= end <= s.len(),
            trailing_white(s@.subrange(lead as int, s.len() as int)) == (s.len() - end)
                + trailing_white(s@.subrange(lead as int, end as int)),
        decreases end - lead,
    {
        assert(s@.subrange(lead as int, end as int).drop_last() =~= s@.subrange(
            lead as int,
            end - 1,
        ));
        end = end - 1;
    }
    assert(trailing_white(s@.subrange(lead as int, end as int)) == 0);
    let mut out: Vec<char> = Vec::new();
    let mut i: usize = lead;
    while i < end
        invariant
            lead <= i <= end <= s.len(),
            out@ == s@.subrange(lead as int, i as int),
        decreases end - i,
    {
        out.push(s[i]);
        assert(out@ =~= s@.subrange(lead as int, i + 1));
        i = i + 1;
    }
    assert(s@.skip(lead as int) =~= s@.subrange(lead as int, s.len() as int));
    assert(out@ =~= s@.skip(lead as int).take(s@.skip(lead as int).len() - trailing_white(
        s@.skip(lead as int),
    )));
    out
}


} // verus!
