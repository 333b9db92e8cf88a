use arperge::storage::data::PruneDuplicataCriteria;
use arperge::storage::duplicata::{prune_by_weight, FindMetaCriteria, MetaMatch};

fn strs(v: &[String]) -> Vec<&str> {
    v.iter().map(|s| s.as_str()).collect()
}

#[test]
fn find_meta_criteria_new_normalises_and_tokenises() {
    let c = FindMetaCriteria::new(
        String::from("Song (Remastered)"),
        243000,
        String::from("The Band"),
        String::from("Best Of"),
    );
    assert_eq!(c.title, "song ");
    assert_eq!(c.artists, "The Band");
    assert_eq!(c.duration_ms, 243000);
    assert_eq!(strs(&c.title_tokens), vec!["son", "ong"]);
    assert_eq!(strs(&c.artist_tokens), vec!["the", "ban", "and"]);
    assert_eq!(strs(&c.album_tokens), vec!["bes", "est", "of"]);
}

#[test]
fn find_meta_criteria_try_new_refuses_cut_characters() {
    // "été" has five bytes: its second window starts inside the first "é"
    assert!(FindMetaCriteria::try_new(String::from("été"), 0, String::new(), String::new()).is_none());
    assert!(FindMetaCriteria::try_new(String::from("song"), 0, String::from("ÉTÉ"), String::new()).is_none());
    assert!(FindMetaCriteria::try_new(String::from("song"), 0, String::from("ab"), String::from("c")).is_some());
}

#[test]
fn prune_duplicata_criteria_new_collects_artist_tokens() {
    let c = PruneDuplicataCriteria::new(
        String::from("Call Me Maybe"),
        Some(193000),
        vec![String::from("Carly"), String::from("Rae-Jepsen")],
    );
    assert_eq!(strs(c.title_tokens()), vec!["cal", "all", "me", "may", "ayb", "ybe"]);
    assert_eq!(c.duration_ms(), Some(193000));
    assert_eq!(
        strs(c.artist_tokens()),
        vec!["car", "arl", "rly", "rae", "aej", "eje", "jep", "eps", "pse", "sen"]
    );
}

#[test]
fn prune_duplicata_criteria_try_new_refuses_cut_characters() {
    assert!(PruneDuplicataCriteria::try_new(String::from("ok"), None, vec![String::from("ééé")]).is_none());
    assert!(PruneDuplicataCriteria::try_new(String::from("ok"), None, vec![]).is_some());
}

fn candidates(n: usize) -> Vec<MetaMatch> {
    (0..n)
        .map(|i| MetaMatch { id: vec![i as u8], title: format!("song {i}"), weight: 7 })
        .collect()
}

fn criteria(duration_ms: u32, artists: &str, album: &str) -> FindMetaCriteria {
    FindMetaCriteria::new(String::from("title"), duration_ms, String::from(artists), String::from(album))
}

#[test]
fn prune_by_weight_gives_full_weight_when_all_criteria_are_known() {
    let mut c = candidates(3);
    prune_by_weight(criteria(200000, "artist", "album"), &mut c);
    assert_eq!(c.len(), 3);
    for (i, m) in c.iter().enumerate() {
        assert_eq!(m.weight, 1);
        assert_eq!(m.id, vec![i as u8]);
        assert_eq!(m.title, format!("song {i}"));
    }
}

#[test]
fn prune_by_weight_gives_zero_weight_when_a_criterion_is_missing() {
    let mut c = candidates(2);
    prune_by_weight(criteria(0, "artist", "album"), &mut c);
    assert!(c.iter().all(|m| m.weight == 0));
    let mut c = candidates(2);
    prune_by_weight(criteria(200000, "", "album"), &mut c);
    assert!(c.iter().all(|m| m.weight == 0));
}

#[test]
fn prune_by_weight_keeps_the_first_ten() {
    let mut c = candidates(15);
    prune_by_weight(criteria(200000, "artist", "album"), &mut c);
    assert_eq!(c.len(), 10);
    for (i, m) in c.iter().enumerate() {
        assert_eq!(m.id, vec![i as u8]);
    }
    let mut empty = Vec::new();
    prune_by_weight(criteria(200000, "artist", "album"), &mut empty);
    assert!(empty.is_empty());
}
