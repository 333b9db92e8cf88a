use arperge::storage::{data, duplicata, norm};

fn strs(v: &[String]) -> Vec<&str> {
    v.iter().map(|s| s.as_str()).collect()
}

#[test]
fn duplicata_normalize_str_turns_breaks_into_spaces() {
    assert_eq!(duplicata::normalize_str("A\tB\nC\rD"), "a b c d");
    assert_eq!(data::normalize_str("A\tB\nC\rD"), "a\tb\nc\rd");
}

#[test]
fn duplicata_normalize_str_removes_punctuation() {
    assert_eq!(duplicata::normalize_str("A,B.C-D:E;F/G#H\\I`J(K)L"), "abcdefghijkl");
    assert_eq!(norm::normalize_str("Hello, World!"), "hello world!");
}

#[test]
fn duplicata_normalize_title_removes_live() {
    assert_eq!(duplicata::normalize_title("My Song feat Artist Live"), "my song  artist ");
    assert_eq!(norm::normalize_title("Rock and Roll"), "rock & roll");
    assert_eq!(norm::normalize_title("LIVE-AND-LOUD"), "&loud");
}

#[test]
fn replacements_apply_one_after_the_other() {
    // "remastered" goes first, so "remaster" is not left behind
    assert_eq!(data::normalize_title("Remastered"), "");
    // removing "feat" can form a new "feat", which stays
    assert_eq!(data::normalize_title("fefeatat"), "feat");
    // removing "live" can form "and", which then becomes "&"
    assert_eq!(data::normalize_title("alivend"), "&");
}

#[test]
fn normalize_lowercases_beyond_ascii() {
    assert_eq!(data::normalize_str("ÉTÉ"), "été");
    assert_eq!(duplicata::normalize_str("Straße"), "straße");
}

#[test]
fn duplicata_tokenize_gives_trigrams() {
    let out = duplicata::tokenize(&String::from("abcd ef g"));
    assert_eq!(strs(&out), vec!["abc", "bcd", "ef", "g"]);
    let out = norm::tokenize(&String::from("abc"));
    assert_eq!(strs(&out), vec!["abc"]);
}

#[test]
fn tokenize_skips_empty_words() {
    let out = data::tokenize(String::from("  ab   cdef "));
    assert_eq!(strs(&out), vec!["ab", "cde", "def"]);
    let out = duplicata::tokenize(&String::from("   "));
    assert!(out.is_empty());
}

#[test]
fn tokenize_cuts_bytes_on_character_boundaries() {
    // four bytes: a one-byte, a two-byte and a one-byte character
    let out = data::tokenize(String::from("aéb"));
    assert_eq!(strs(&out), vec!["aé", "éb"]);
    // a short multi-byte word is one token
    let out = data::tokenize(String::from("é"));
    assert_eq!(strs(&out), vec!["é"]);
}

#[test]
fn tokens_of_joined_words_are_the_tokens_of_each() {
    let a = data::tokenize(String::from("call me"));
    let b = data::tokenize(String::from("maybe"));
    let ab = data::tokenize(String::from("call me maybe"));
    let mut joined = a.clone();
    joined.extend(b);
    assert_eq!(ab, joined);
}

#[test]
fn tokens_have_bounded_length_and_no_space() {
    for t in data::tokenize(String::from("the quick brown fox")) {
        assert!(!t.is_empty() && t.len() <= 3 && !t.contains(' '));
    }
    for t in duplicata::tokenize(&String::from("the quick brown fox")) {
        assert!(!t.is_empty() && t.len() <= 3 && !t.contains(' '));
    }
}

#[test]
fn normalize_str_is_idempotent_on_ascii() {
    for s in ["Test-String", "A,B.C", "x\ty", "Hello World"] {
        let once = data::normalize_str(s);
        assert_eq!(data::normalize_str(&once), once);
        let once = duplicata::normalize_str(s);
        assert_eq!(duplicata::normalize_str(&once), once);
    }
}

#[test]
fn normal_forms_hold_no_dropped_punctuation() {
    let input = "Rock, Paper. Scissors - (Live) #1: a/b\\c`d;e\tf";
    for n in [data::normalize_str(input), duplicata::normalize_str(input)] {
        assert!(!n.chars().any(|c| ",.-:;/#\\`()".contains(c)), "{n:?}");
    }
    assert!(!duplicata::normalize_str(input).contains('\t'));
}

#[test]
fn spaces_around_words_change_no_token() {
    let plain = data::tokenize(String::from("call me"));
    for s in [" call me", "call me ", "call   me", "  call  me  "] {
        assert_eq!(data::tokenize(String::from(s)), plain, "{s:?}");
    }
    let plain = duplicata::tokenize(&String::from("call me"));
    assert_eq!(duplicata::tokenize(&String::from(" call  me ")), plain);
    assert!(data::tokenize(String::new()).is_empty());
}

#[test]
fn trigrams_of_joined_texts_are_the_trigrams_of_each() {
    let a = duplicata::tokenize(&String::from("pink rose"));
    let b = duplicata::tokenize(&String::from("red"));
    let mut joined = a.clone();
    joined.extend(b);
    assert_eq!(duplicata::tokenize(&String::from("pink rose red")), joined);
}
