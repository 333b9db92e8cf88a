//! The SQL that looks songs up in the library, built with sqlx's query
//! builder.
//!
//! A query is built by appending SQL text and values, each value appended
//! as a placeholder with the value bound to it. Lists of values are
//! separated as a query builder's `separated(",")` does: the separator goes
//! before every value but the first.
use vstd::prelude::*;
use vstd::utf8::*;
use sqlx::{QueryBuilder, Sqlite};
use crate::storage::duplicata::FindMetaCriteria;
use crate::storage::words::{all_tokens, chars_of_strings, tokenizable, try_tokens, utf8_of_strings};

verus! {

/// A value bound to a placeholder of a query.
pub ghost enum BoundValue {
    Text(Seq<char>),
    Int(u32),
}

/// A SQLite query under construction: an sqlx `QueryBuilder`, which holds
/// the SQL text and the values bound to its placeholders.
#[verifier::external_body]
pub struct SqliteQuery {
    pub builder: QueryBuilder<'static, Sqlite>,
}

/// The SQL text of a query (`QueryBuilder::sql`).
pub uninterp spec fn query_sql(q: SqliteQuery) -> Seq<char>;

/// The values bound to the placeholders of a query, in order.
pub uninterp spec fn query_binds(q: SqliteQuery) -> Seq<BoundValue>;

impl SqliteQuery {
    /// Calls `QueryBuilder::new`: the query starts with the given text and
    /// no bound value.
    #[verifier::external_body]
    fn new(init: &str) -> (q: Self)
        ensures
            query_sql(q) == init@,
            query_binds(q) == Seq::<BoundValue>::empty(),
    {
        SqliteQuery { builder: QueryBuilder::new(init) }
    }

    /// Calls `QueryBuilder::push`, which appends text to the SQL.
    #[verifier::external_body]
    fn push(&mut self, s: &str)
        ensures
            query_sql(*final(self)) == query_sql(*old(self)) + s@,
            query_binds(*final(self)) == query_binds(*old(self)),
    {
        self.builder.push(s);
    }

    /// Calls `QueryBuilder::push_bind` with a text value: the value is bound
    /// and SQLite's placeholder `?` appended to the SQL.
    #[verifier::external_body]
    fn push_bind_text(&mut self, v: String)
        ensures
            query_sql(*final(self)) == query_sql(*old(self)) + "?"@,
            query_binds(*final(self)) == query_binds(*old(self)).push(BoundValue::Text(v@)),
    {
        self.builder.push_bind(v);
    }

    /// Calls `QueryBuilder::push_bind` with an integer value: the value is
    /// bound and SQLite's placeholder `?` appended to the SQL.
    #[verifier::external_body]
    fn push_bind_u32(&mut self, v: u32)
        ensures
            query_sql(*final(self)) == query_sql(*old(self)) + "?"@,
            query_binds(*final(self)) == query_binds(*old(self)).push(BoundValue::Int(v)),
    {
        self.builder.push_bind(v);
    }
}

/// The start of the duplicate lookup. Each row is read as a `MetaMatch`,
/// which has an `id`, a `title` and a `weight`; the weight is selected as 0
/// and given its value when the candidates are weighed.
pub const FIND_META_SELECT: &'static str = "\n            SELECT id, title, 0 AS weight FROM song \n            WHERE 1 \n        ";

/// The title filter, before its tokens.
pub const TITLE_FILTER: &'static str = " AND id IN (SELECT song_id FROM song_token WHERE token IN (";

/// The artist filter, before its tokens.
pub const ARTIST_FILTER: &'static str = " AND artist_id IN (SELECT artist_id FROM artist_token WHERE token IN (";

/// The album filter, before its tokens.
pub const ALBUM_FILTER: &'static str = " AND album_id IN (SELECT album_id FROM album_token WHERE token IN (";

/// The end of a token filter.
pub const FILTER_END: &'static str = "))";

/// The duration filter, before its bounds.
pub const DURATION_FILTER: &'static str = " AND duration_ms BETWEEN ";

/// Between the two bounds of the duration filter.
pub const BETWEEN_AND: &'static str = " AND ";

/// How far, in milliseconds, a duration may be from the searched one.
pub const DELTA_DURATION_MS: u32 = 5000;

/// The start of the free-text search: the search tokens as a table.
pub const SEARCH_INPUT: &'static str = "\n            WITH input(token) AS (\n                VALUES\n            ";

/// The free-text search: songs whose title, artist or album has one of the
/// tokens. Each row is read as a `MetaMatch`, so the weight is selected too,
/// as 0: a search weighs nothing, and without the column no row would decode.
pub const SEARCH_SELECT: &'static str = "\n            SELECT id, title, 0 AS weight FROM song \n            WHERE id IN (\n                SELECT song_id FROM song_token WHERE token IN (SELECT * FROM input)\n            ) OR artist_id in (\n                SELECT artist_id FROM artist_token WHERE token IN (SELECT * FROM input)\n            ) OR album_id in (\n                SELECT album_id FROM album_token WHERE token IN (SELECT * FROM input)\n            )\n            ";

/// Inputs longer than this many bytes are cut to it before a search.
pub const MAX_INPUT_LEN: usize = 1024;

/// `n` placeholders separated by commas.
pub open spec fn placeholders(n: nat) -> Seq<char>
    decreases n,
{
    if n == 0 {
        Seq::empty()
    } else {
        placeholders((n - 1) as nat) + (if n > 1 {
            ","@
        } else {
            ""@
        }) + "?"@
    }
}

/// The tokens as bound text values.
pub open spec fn text_binds(tokens: Seq<String>) -> Seq<BoundValue> {
    tokens.map_values(|t: String| BoundValue::Text(t@))
}

/// A token filter: its head, a placeholder for each token, and the closing
/// parentheses.
pub open spec fn token_filter(head: Seq<char>, n: nat) -> Seq<char> {
    head + placeholders(n) + FILTER_END@
}

/// The SQL of the duplicate lookup of a song: the songs with one of the
/// title tokens; when there are artist tokens, by an artist with one of
/// them, and also on an album with one of the album tokens (whose filter is
/// added when the artist tokens, not the album tokens, are present); and,
/// when the duration is known, lasting within `DELTA_DURATION_MS` of it.
pub open spec fn find_meta_sql(c: FindMetaCriteria) -> Seq<char> {
    FIND_META_SELECT@ + (if c.title_tokens@.len() > 0 {
        token_filter(TITLE_FILTER@, c.title_tokens@.len())
    } else {
        Seq::empty()
    }) + (if c.artist_tokens@.len() > 0 {
        token_filter(ARTIST_FILTER@, c.artist_tokens@.len())
    } else {
        Seq::empty()
    }) + (if c.artist_tokens@.len() > 0 {
        token_filter(ALBUM_FILTER@, c.album_tokens@.len())
    } else {
        Seq::empty()
    }) + (if c.duration_ms > 0 {
        DURATION_FILTER@ + "?"@ + BETWEEN_AND@ + "?"@
    } else {
        Seq::empty()
    })
}

/// The values bound in the duplicate lookup, in the order of the filters.
pub open spec fn find_meta_binds(c: FindMetaCriteria) -> Seq<BoundValue> {
    (if c.title_tokens@.len() > 0 {
        text_binds(c.title_tokens@)
    } else {
        Seq::empty()
    }) + (if c.artist_tokens@.len() > 0 {
        text_binds(c.artist_tokens@)
    } else {
        Seq::empty()
    }) + (if c.artist_tokens@.len() > 0 {
        text_binds(c.album_tokens@)
    } else {
        Seq::empty()
    }) + (if c.duration_ms > 0 {
        seq![
            BoundValue::Int((c.duration_ms - DELTA_DURATION_MS) as u32),
            BoundValue::Int((c.duration_ms + DELTA_DURATION_MS) as u32),
        ]
    } else {
        Seq::empty()
    })
}

/// The duration bounds of a lookup fit in a `u32`.
pub open spec fn duration_bounds_fit(c: FindMetaCriteria) -> bool {
    c.duration_ms > 0 ==> DELTA_DURATION_MS <= c.duration_ms <= u32::MAX - DELTA_DURATION_MS
}

/// `n` placeholders, for `n` at least one, are `n` question marks with a
/// comma between each two.
pub proof fn lemma_placeholders_shape(n: nat)
    requires
        n > 0,
    ensures
        placeholders(n).len() == 2 * n - 1,
        forall|i: int|
            0 <= i < placeholders(n).len() ==> #[trigger] placeholders(n)[i] == (if i % 2 == 0 {
                '?'
            } else {
                ','
            }),
    decreases n,
{
    reveal_strlit(",");
    reveal_strlit("");
    reveal_strlit("?");
    if n > 1 {
        lemma_placeholders_shape((n - 1) as nat);
        let p = placeholders((n - 1) as nat);
        assert(placeholders(n) =~= p + ","@ + "?"@);
        assert forall|i: int| 0 <= i < placeholders(n).len() implies #[trigger] placeholders(n)[i]
            == (if i % 2 == 0 {
            '?'
        } else {
            ','
        }) by {
            if i < p.len() {
                assert(placeholders(n)[i] == p[i]);
            }
        }
    } else {
        assert(placeholders(0) =~= Seq::<char>::empty());
        assert(placeholders(n) =~= "?"@);
    }
}

/// The duplicate lookup searches every token of the criteria: its SQL
/// starts with the title filter, with one placeholder per title token when
/// there are title tokens, and the values bound are the title tokens in
/// order; then, when there are artist tokens, the artist tokens and the
/// album tokens in order; then, when the duration is known, the two bounds
/// of the window of 5 s around it.
pub proof fn lemma_find_meta_searches_every_token(c: FindMetaCriteria)
    ensures
        c.title_tokens@.len() > 0 ==> find_meta_sql(c).take(
            (FIND_META_SELECT@.len() + TITLE_FILTER@.len() + placeholders(c.title_tokens@.len()).len()
                + FILTER_END@.len()) as int,
        ) == FIND_META_SELECT@ + TITLE_FILTER@ + placeholders(c.title_tokens@.len()) + FILTER_END@,
        ({
            let n = c.title_tokens@.len() as int;
            let a = c.artist_tokens@.len() as int;
            let m = c.album_tokens@.len() as int;
            let t: int = if a > 0 {
                a + m
            } else {
                0
            };
            let b = find_meta_binds(c);
            &&& b.len() == n + t + (if c.duration_ms > 0 {
                2int
            } else {
                0int
            })
            &&& forall|i: int| 0 <= i < n ==> b[i] == BoundValue::Text(#[trigger] c.title_tokens@[i]@)
            &&& a > 0 ==> forall|j: int|
                0 <= j < a ==> b[n + j] == BoundValue::Text(#[trigger] c.artist_tokens@[j]@)
            &&& a > 0 ==> forall|k: int|
                0 <= k < m ==> b[n + a + k] == BoundValue::Text(#[trigger] c.album_tokens@[k]@)
            &&& c.duration_ms > 0 ==> b[n + t] == BoundValue::Int((c.duration_ms - 5000) as u32)
                && b[n + t + 1] == BoundValue::Int((c.duration_ms + 5000) as u32)
        }),
{
    let n = c.title_tokens@.len() as int;
    let a = c.artist_tokens@.len() as int;
    let m = c.album_tokens@.len() as int;
    if n > 0 {
        let pre = FIND_META_SELECT@ + TITLE_FILTER@ + placeholders(n as nat) + FILTER_END@;
        assert(find_meta_sql(c).take(pre.len() as int) =~= pre);
    }
    let b = find_meta_binds(c);
    let tb = if n > 0 {
        text_binds(c.title_tokens@)
    } else {
        Seq::<BoundValue>::empty()
    };
    let ab = if a > 0 {
        text_binds(c.artist_tokens@)
    } else {
        Seq::<BoundValue>::empty()
    };
    let mb = if a > 0 {
        text_binds(c.album_tokens@)
    } else {
        Seq::<BoundValue>::empty()
    };
    assert forall|i: int| 0 <= i < n implies b[i] == BoundValue::Text(
        #[trigger] c.title_tokens@[i]@,
    ) by {
        assert(b[i] == tb[i]);
    }
    if a > 0 {
        assert forall|j: int| 0 <= j < a implies b[n + j] == BoundValue::Text(
            #[trigger] c.artist_tokens@[j]@,
        ) by {
            assert(b[n + j] == ab[j]);
        }
        assert forall|k: int| 0 <= k < m implies b[n + a + k] == BoundValue::Text(
            #[trigger] c.album_tokens@[k]@,
        ) by {
            assert(b[n + a + k] == mb[k]);
        }
    }
}

/// Binds the tokens, separated by commas.
fn push_separated_binds(q: &mut SqliteQuery, tokens: &Vec<String>)
    ensures
        query_sql(*final(q)) == query_sql(*old(q)) + placeholders(tokens@.len()),
        query_binds(*final(q)) == query_binds(*old(q)) + text_binds(tokens@),
{
    let mut k: usize = 0;
    assert(query_sql(*q) =~= query_sql(*q) + placeholders(0));
    assert(query_binds(*q) =~= query_binds(*q) + text_binds(tokens@.take(0)));
    while k < tokens.len()
        invariant
            0 <= k <= tokens.len(),
            query_sql(*q) == query_sql(*old(q)) + placeholders(k as nat),
            query_binds(*q) == query_binds(*old(q)) + text_binds(tokens@.take(k as int)),
        decreases tokens.len() - k,
    {
        if k > 0 {
            q.push(",");
        }
        q.push_bind_text(tokens[k].clone());
        proof {
            reveal_strlit(",");
            reveal_strlit("");
            assert(query_sql(*q) =~= query_sql(*old(q)) + placeholders((k + 1) as nat));
            assert(query_binds(*q) =~= query_binds(*old(q)) + text_binds(tokens@.take(k + 1)));
        }
        k = k + 1;
    }
    assert(tokens@.take(tokens.len() as int) =~= tokens@);
}

/// Appends a token filter.
fn push_token_filter(q: &mut SqliteQuery, head: &str, tokens: &Vec<String>)
    ensures
        query_sql(*final(q)) == query_sql(*old(q)) + token_filter(head@, tokens@.len()),
        query_binds(*final(q)) == query_binds(*old(q)) + text_binds(tokens@),
{
    q.push(head);
    push_separated_binds(q, tokens);
    q.push(FILTER_END);
    assert(query_sql(*q) =~= query_sql(*old(q)) + token_filter(head@, tokens@.len()));
}

/// The duplicate lookup for the criteria (see `find_meta_sql` and
/// `find_meta_binds`).
pub fn find_meta_query(criteria: &FindMetaCriteria) -> (q: SqliteQuery)
    requires
        duration_bounds_fit(*criteria),
    ensures
        query_sql(q) == find_meta_sql(*criteria),
        query_binds(q) == find_meta_binds(*criteria),
{
    let mut q = SqliteQuery::new(FIND_META_SELECT);
    if criteria.title_tokens.len() > 0 {
        push_token_filter(&mut q, TITLE_FILTER, &criteria.title_tokens);
    }
    if criteria.artist_tokens.len() > 0 {
        push_token_filter(&mut q, ARTIST_FILTER, &criteria.artist_tokens);
    }
    if criteria.artist_tokens.len() > 0 {
        push_token_filter(&mut q, ALBUM_FILTER, &criteria.album_tokens);
    }
    if criteria.duration_ms > 0 {
        q.push(DURATION_FILTER);
        q.push_bind_u32(criteria.duration_ms - DELTA_DURATION_MS);
        q.push(BETWEEN_AND);
        q.push_bind_u32(criteria.duration_ms + DELTA_DURATION_MS);
    }
    assert(query_sql(q) =~= find_meta_sql(*criteria));
    assert(query_binds(q) =~= find_meta_binds(*criteria));
    q
}

/// The rows of the search input table for `n` tokens: each a placeholder in
/// parentheses, the closing parenthesis of every row but the first preceded
/// by a comma (the separator of a list whose only separated pushes are those
/// parentheses).
pub open spec fn token_rows(n: nat) -> Seq<char>
    decreases n,
{
    if n == 0 {
        Seq::empty()
    } else {
        token_rows((n - 1) as nat) + "(?"@ + (if n > 1 {
            ",)"@
        } else {
            ")"@
        })
    }
}

/// The SQL of the free-text search for `n` tokens.
pub open spec fn search_sql(n: nat) -> Seq<char> {
    SEARCH_INPUT@ + token_rows(n) + ")"@ + SEARCH_SELECT@
}

/// The bytes of a search input that are searched for: at most the first
/// `MAX_INPUT_LEN`.
pub open spec fn searched_bytes(search: Seq<char>) -> Seq<u8> {
    let b = encode_utf8(search);
    if b.len() > MAX_INPUT_LEN {
        b.take(MAX_INPUT_LEN as int)
    } else {
        b
    }
}

/// The trigrams searched for an input, as characters.
pub open spec fn search_tokens(search: Seq<char>) -> Seq<Seq<char>> {
    all_tokens(searched_bytes(search), 3).map_values(|b: Seq<u8>| decode_utf8(b))
}

/// A search input is too short to search for: under three bytes.
pub open spec fn search_too_short(search: Seq<char>) -> bool {
    encode_utf8(search).len() < 3
}

/// A search input can be searched for: cutting it at `MAX_INPUT_LEN` bytes
/// falls on a character boundary, and its trigrams too.
pub open spec fn searchable(search: Seq<char>) -> bool {
    let b = encode_utf8(search);
    &&& b.len() > MAX_INPUT_LEN ==> is_char_boundary(b, MAX_INPUT_LEN as int)
    &&& tokenizable(searched_bytes(search), 3)
}

/// The first `MAX_INPUT_LEN` bytes of a search input, as characters.
pub open spec fn search_prefix(search: Seq<char>) -> Seq<char> {
    decode_utf8(searched_bytes(search))
}

/// Only the first `MAX_INPUT_LEN` bytes of an input are searched for:
/// wherever cutting the input there falls on a character boundary, the input
/// and its first `MAX_INPUT_LEN` bytes are alike too short or not, alike
/// searchable or not, and give the same trigrams and so the same query.
pub proof fn lemma_search_prefix(search: Seq<char>)
    requires
        encode_utf8(search).len() > MAX_INPUT_LEN ==> is_char_boundary(
            encode_utf8(search),
            MAX_INPUT_LEN as int,
        ),
    ensures
        encode_utf8(search_prefix(search)) == searched_bytes(search),
        search_too_short(search_prefix(search)) == search_too_short(search),
        searchable(search_prefix(search)) == searchable(search),
        search_tokens(search_prefix(search)) == search_tokens(search),
        search_sql(search_tokens(search_prefix(search)).len()) == search_sql(
            search_tokens(search).len(),
        ),
{
    let b = encode_utf8(search);
    encode_utf8_valid_utf8(search);
    if b.len() > MAX_INPUT_LEN {
        valid_utf8_split(b, MAX_INPUT_LEN as int);
        assert(b.subrange(0, MAX_INPUT_LEN as int) =~= b.take(MAX_INPUT_LEN as int));
        decode_utf8_encode_utf8(b.take(MAX_INPUT_LEN as int));
    } else {
        encode_utf8_decode_utf8(search);
    }
    assert(searched_bytes(search_prefix(search)) == searched_bytes(search));
}

fn push_token_rows(q: &mut SqliteQuery, tokens: &Vec<String>)
    ensures
        query_sql(*final(q)) == query_sql(*old(q)) + token_rows(tokens@.len()),
        query_binds(*final(q)) == query_binds(*old(q)) + text_binds(tokens@),
{
    let mut k: usize = 0;
    assert(query_sql(*q) =~= query_sql(*q) + token_rows(0));
    assert(query_binds(*q) =~= query_binds(*q) + text_binds(tokens@.take(0)));
    while k < tokens.len()
        invariant
            0 <= k <= tokens.len(),
            query_sql(*q) == query_sql(*old(q)) + token_rows(k as nat),
            query_binds(*q) == query_binds(*old(q)) + text_binds(tokens@.take(k as int)),
        decreases tokens.len() - k,
    {
        q.push("(");
        q.push_bind_text(tokens[k].clone());
        if k > 0 {
            q.push(",)");
        } else {
            q.push(")");
        }
        proof {
            reveal_strlit("(");
            reveal_strlit("?");
            reveal_strlit("(?");
            assert("(?"@ =~= "("@ + "?"@);
            assert(query_sql(*q) =~= query_sql(*old(q)) + token_rows((k + 1) as nat));
            assert(query_binds(*q) =~= query_binds(*old(q)) + text_binds(tokens@.take(k + 1)));
        }
        k = k + 1;
    }
    assert(tokens@.take(tokens.len() as int) =~= tokens@);
}

/// The free-text search for an input, or `None` when the input is too short
/// to search for (the search then finds nothing). The input is cut to
/// `MAX_INPUT_LEN` bytes, and its trigrams are bound, each as a row of the
/// input table.
pub fn search_meta_query(search: String) -> (r: Option<SqliteQuery>)
    requires
        !search_too_short(search@) ==> searchable(search@),
    ensures
        search_too_short(search@) <==> r is None,
        r matches Some(q) ==> query_sql(q) == search_sql(search_tokens(search@).len()) && query_binds(q)
            == search_tokens(search@).map_values(|t: Seq<char>| BoundValue::Text(t)),
{
    let bytes = search.as_str().as_bytes();
    if bytes.len() < 3 {
        return None;
    }
    let end = if bytes.len() > MAX_INPUT_LEN {
        MAX_INPUT_LEN
    } else {
        bytes.len()
    };
    let part = vstd::slice::slice_subrange(bytes, 0, end);
    assert(part@ =~= searched_bytes(search@));
    let tokens = match try_tokens(part, 3) {
        Some(t) => t,
        None => {
            assert(false);
            Vec::new()
        },
    };
    let mut q = SqliteQuery::new(SEARCH_INPUT);
    push_token_rows(&mut q, &tokens);
    q.push(")");
    q.push(SEARCH_SELECT);
    proof {
        broadcast use vstd::utf8::encode_utf8_decode_utf8;

        assert(chars_of_strings(tokens@) =~= search_tokens(search@)) by {
            assert forall|i: int| 0 <= i < tokens@.len() implies #[trigger] chars_of_strings(
                tokens@,
            )[i] == search_tokens(search@)[i] by {
                assert(utf8_of_strings(tokens@)[i] == encode_utf8(tokens@[i]@));
            }
        }
        assert(query_sql(q) =~= search_sql(search_tokens(search@).len()));
        assert(query_binds(q) =~= search_tokens(search@).map_values(
            |t: Seq<char>| BoundValue::Text(t),
        ));
    }
    Some(q)
}

/// Whether an input can be handed to `search_meta_query`: it is too short
/// to search for, or it can be searched for.
pub fn search_input_ok(search: &String) -> (r: bool)
    ensures
        r == (search_too_short(search@) || searchable(search@)),
{
    let bytes = search.as_str().as_bytes();
    if bytes.len() < 3 {
        return true;
    }
    if bytes.len() > MAX_INPUT_LEN && !search.as_str().is_char_boundary(MAX_INPUT_LEN) {
        return false;
    }
    let end = if bytes.len() > MAX_INPUT_LEN {
        MAX_INPUT_LEN
    } else {
        bytes.len()
    };
    let part = vstd::slice::slice_subrange(bytes, 0, end);
    assert(part@ =~= searched_bytes(search@));
    try_tokens(part, 3).is_some()
}

/// Whether the duration bounds of a lookup fit in a `u32` (see
/// `duration_bounds_fit`).
pub fn durations_fit(c: &FindMetaCriteria) -> (r: bool)
    ensures
        r == duration_bounds_fit(*c),
{
    c.duration_ms == 0 || (DELTA_DURATION_MS <= c.duration_ms && c.duration_ms <= u32::MAX
        - DELTA_DURATION_MS)
}

} // verus!
