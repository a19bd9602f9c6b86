use wordle_solver::words::Words;
use wordle_solver::eq_word;
use wordle_solver::has_word;
use wordle_solver::is_wf_word;

fn index_dict(entries: &[&str]) -> Vec<Vec<u8>> {
    entries.iter().map(|w| w.as_bytes().to_vec()).collect()
}

#[test]
fn buckets_hold_exactly_the_matching_words() {
    let w = Words::new(index_dict(&["crane", "slate", "cigar"]));
    let b = w.with_letter_at(b'c', 0);
    assert!(b.contains(&0));
    assert!(b.contains(&2));
    assert!(!b.contains(&1));
    let b2 = w.with_letter_at(b'a', 2);
    assert!(b2.contains(&0) && b2.contains(&1) && !b2.contains(&2));
    assert!(w.with_letter_at(b'z', 0).is_empty());
    assert!(w.with_letter_at(b'-', 0).is_empty());
}

#[test]
fn every_word_stands_in_its_own_buckets() {
    let entries = index_dict(&["crane", "slate", "cigar", "vivid"]);
    let w = Words::new(entries.clone());
    for (j, word) in entries.iter().enumerate() {
        for p in 0..5 {
            assert!(w.with_letter_at(word[p], p).contains(&j));
        }
    }
}

#[test]
fn empty_dictionary_builds_a_valid_empty_index() {
    let w = Words::new(Vec::new());
    assert!(w.with_letter_at(b'a', 0).is_empty());
    assert!(w.random_word().is_none());
}

#[test]
fn random_word_comes_from_the_dictionary() {
    let w = Words::new(index_dict(&["crane"]));
    assert_eq!(w.random_word(), Some(b"crane".to_vec()));
}

#[test]
fn word_well_formedness_is_checked() {
    assert!(is_wf_word(&b"crane".to_vec()));
    assert!(!is_wf_word(&b"cran".to_vec()));
    assert!(!is_wf_word(&b"cranes".to_vec()));
    assert!(!is_wf_word(&b"crAne".to_vec()));
    assert!(!is_wf_word(&b"cr4ne".to_vec()));
}

#[test]
fn word_equality_and_lookup_helpers() {
    assert!(eq_word(&b"crane".to_vec(), &b"crane".to_vec()));
    assert!(!eq_word(&b"crane".to_vec(), &b"crane ".to_vec()));
    assert!(!eq_word(&b"crane".to_vec(), &b"craze".to_vec()));
    let list = index_dict(&["crane", "slate"]);
    assert!(has_word(&list, &b"slate".to_vec()));
    assert!(!has_word(&list, &b"cigar".to_vec()));
}
