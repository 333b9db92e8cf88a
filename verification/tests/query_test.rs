use arperge::storage::duplicata::FindMetaCriteria;
use arperge::storage::query::{
    durations_fit, find_meta_query, search_input_ok, search_meta_query,
    FIND_META_SELECT, SEARCH_INPUT, SEARCH_SELECT,
};

fn criteria(title: &str, duration_ms: u32, artists: &str, album: &str) -> FindMetaCriteria {
    FindMetaCriteria::new(title.to_owned(), duration_ms, artists.to_owned(), album.to_owned())
}

#[test]
fn find_meta_query_has_every_filter() {
    let q = find_meta_query(&criteria("abc", 200000, "xy", "de fg"));
    let expected = FIND_META_SELECT.to_owned()
        + " AND id IN (SELECT song_id FROM song_token WHERE token IN (?))"
        + " AND artist_id IN (SELECT artist_id FROM artist_token WHERE token IN (?))"
        + " AND album_id IN (SELECT album_id FROM album_token WHERE token IN (?,?))"
        + " AND duration_ms BETWEEN ? AND ?";
    assert_eq!(q.builder.sql(), expected);
}

#[test]
fn find_meta_query_album_filter_follows_artist_tokens() {
    let q = find_meta_query(&criteria("abc", 0, "", "de"));
    let expected =
        FIND_META_SELECT.to_owned() + " AND id IN (SELECT song_id FROM song_token WHERE token IN (?))";
    assert_eq!(q.builder.sql(), expected);
    let q = find_meta_query(&criteria("", 0, "xy", ""));
    let expected = FIND_META_SELECT.to_owned()
        + " AND artist_id IN (SELECT artist_id FROM artist_token WHERE token IN (?))"
        + " AND album_id IN (SELECT album_id FROM album_token WHERE token IN ())";
    assert_eq!(q.builder.sql(), expected);
}

#[test]
fn duration_bounds_must_fit() {
    assert!(durations_fit(&criteria("", 0, "", "")));
    assert!(durations_fit(&criteria("", 5000, "", "")));
    assert!(!durations_fit(&criteria("", 4999, "", "")));
    assert!(!durations_fit(&criteria("", u32::MAX - 4999, "", "")));
    assert!(durations_fit(&criteria("", u32::MAX - 5000, "", "")));
}

#[test]
fn search_meta_query_too_short() {
    assert!(search_meta_query(String::from("ab")).is_none());
    assert!(search_meta_query(String::from("é")).is_none());
    assert!(search_input_ok(&String::from("ab")));
}

#[test]
fn search_meta_query_rows() {
    let q = search_meta_query(String::from("abcd ef")).unwrap();
    let expected = SEARCH_INPUT.to_owned() + "(?)(?,)(?,))" + SEARCH_SELECT;
    assert_eq!(q.builder.sql(), expected);
}

#[test]
fn search_meta_query_cuts_long_input() {
    let long = "ab ".repeat(500);
    let q = search_meta_query(long).unwrap();
    // 1024 bytes: 341 words "ab" and a last "a", one row each
    let rows = q.builder.sql().matches('?').count();
    assert_eq!(rows, 342);
    let cut = "a".repeat(1023) + "é";
    assert!(!search_input_ok(&cut));
}

/// Runs the lookup on an in-memory library holding two songs.
async fn lookup(c: FindMetaCriteria) -> Vec<(Vec<u8>, String, u8)> {
    let pool = sqlx::sqlite::SqlitePoolOptions::new()
        .max_connections(1)
        .connect("sqlite::memory:")
        .await
        .unwrap();
    for stmt in [
        "CREATE TABLE song (id BLOB PRIMARY KEY, title TEXT, duration_ms INTEGER, artist_id BLOB, album_id BLOB)",
        "CREATE TABLE song_token (song_id BLOB, token TEXT)",
        "CREATE TABLE artist_token (artist_id BLOB, token TEXT)",
        "CREATE TABLE album_token (album_id BLOB, token TEXT)",
        "INSERT INTO song VALUES (x'01', 'twenty four', 243438, x'a1', x'b1')",
        "INSERT INTO song VALUES (x'02', 'other', 100000, x'a2', x'b2')",
        "INSERT INTO song_token VALUES (x'01', 'twe'), (x'02', 'oth')",
        "INSERT INTO artist_token VALUES (x'a1', 'ato'), (x'a2', 'zzz')",
        "INSERT INTO album_token VALUES (x'b1', 'ato'), (x'b2', 'yyy')",
    ] {
        sqlx::query(stmt).execute(&pool).await.unwrap();
    }
    let mut q = find_meta_query(&c);
    q.builder.build_query_as::<(Vec<u8>, String, u8)>().fetch_all(&pool).await.unwrap()
}

#[test]
fn find_meta_query_binds_the_tokens_and_bounds() {
    let rt = tokio::runtime::Builder::new_current_thread().enable_all().build().unwrap();
    let found = rt.block_on(lookup(criteria("twenty", 243000, "ATO", "ATO")));
    assert_eq!(found, vec![(vec![1u8], "twenty four".to_owned(), 0u8)]);
    // out of the duration window
    let found = rt.block_on(lookup(criteria("twenty", 250000, "ATO", "ATO")));
    assert!(found.is_empty());
    // title tokens of the other song
    let found = rt.block_on(lookup(criteria("other", 0, "", "")));
    assert_eq!(found, vec![(vec![2u8], "other".to_owned(), 0u8)]);
}

#[test]
fn search_meta_query_binds_its_token() {
    let rt = tokio::runtime::Builder::new_current_thread().enable_all().build().unwrap();
    let found = rt.block_on(async {
        let pool = sqlx::sqlite::SqlitePoolOptions::new()
            .max_connections(1)
            .connect("sqlite::memory:")
            .await
            .unwrap();
        for stmt in [
            "CREATE TABLE song (id BLOB PRIMARY KEY, title TEXT, artist_id BLOB, album_id BLOB)",
            "CREATE TABLE song_token (song_id BLOB, token TEXT)",
            "CREATE TABLE artist_token (artist_id BLOB, token TEXT)",
            "CREATE TABLE album_token (album_id BLOB, token TEXT)",
            "INSERT INTO song VALUES (x'01', 'abc', x'a1', x'b1'), (x'02', 'xyz', x'a2', x'b2')",
            "INSERT INTO song_token VALUES (x'01', 'abc'), (x'02', 'xyz')",
        ] {
            sqlx::query(stmt).execute(&pool).await.unwrap();
        }
        // "abc" is its own single token
        let mut q = search_meta_query(String::from("abc")).unwrap();
        q.builder.build_query_as::<(Vec<u8>, String, u8)>().fetch_all(&pool).await.unwrap()
    });
    assert_eq!(found, vec![(vec![1u8], "abc".to_owned(), 0u8)]);
}

#[test]
fn search_is_the_search_of_its_first_bytes() {
    let long = "abc de ".repeat(300);
    let prefix = long[..1024].to_owned();
    assert!(search_input_ok(&long) && search_input_ok(&prefix));
    let q = search_meta_query(long).unwrap();
    let p = search_meta_query(prefix).unwrap();
    assert_eq!(q.builder.sql(), p.builder.sql());
}
