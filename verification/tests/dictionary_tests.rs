use std::collections::VecDeque;

use iexplorer::dictionary::{create_dictionary, indexer, WordMap, NO_WORD};

fn map(pairs: &[(&str, isize)]) -> WordMap {
    WordMap { itemz: pairs.iter().map(|(w, n)| (w.to_string(), *n)).collect() }
}

fn windows(ws: &[VecDeque<isize>]) -> Vec<Vec<isize>> {
    ws.iter().map(|w| w.iter().copied().collect()).collect()
}

#[test]
fn dictionary_numbers_words_in_order_of_first_appearance() {
    let qs = vec!["Where is Fido?".to_string(), "Is Fido a dog".to_string()];
    let d = create_dictionary(&qs);
    let expect: Vec<(String, usize)> = vec![
        ("where".to_string(), 2),
        ("is".to_string(), 3),
        ("fido".to_string(), 4),
        ("a".to_string(), 5),
        ("dog".to_string(), 6),
    ];
    assert_eq!(d, expect);
}

#[test]
fn dictionary_of_no_questions_is_empty() {
    assert!(create_dictionary(&vec![]).is_empty());
}

#[test]
fn word_map_finds_first_entry() {
    let m = map(&[("fido", 4), ("dog", 6), ("fido", 9)]);
    assert_eq!(m.get("fido"), Some(4));
    assert_eq!(m.get("dog"), Some(6));
    assert_eq!(m.get("cat"), None);
}

#[test]
fn indexer_windows_follow_the_last_words() {
    let m = map(&[("where", 2), ("is", 3), ("fido", 4)]);
    let toks: Vec<String> = ["where", "is", "my", "fido"].iter().map(|s| s.to_string()).collect();
    let r = indexer(&toks, &m);
    assert_eq!(
        windows(&r.windows),
        vec![
            vec![NO_WORD, NO_WORD, 2, 3],
            vec![NO_WORD, 2, 3, 4],
            vec![2, 3, 4, NO_WORD],
            vec![3, 4, NO_WORD, NO_WORD],
        ]
    );
    assert_eq!(r.unknown, vec!["my".to_string()]);
}

#[test]
fn indexer_of_unknown_sentence_has_empty_windows() {
    let m = map(&[("fido", 4)]);
    let toks: Vec<String> = vec!["cat".to_string(), "".to_string()];
    let r = indexer(&toks, &m);
    assert_eq!(windows(&r.windows), vec![vec![NO_WORD; 4], vec![NO_WORD; 4]]);
    assert_eq!(r.unknown, toks);
}

#[test]
fn a_map_with_one_entry_per_word_gives_back_each_number() {
    let pairs = [("where", 2), ("is", 3), ("fido", 4), ("dog", 7)];
    let m = map(&pairs);
    for (w, n) in pairs.iter() {
        assert_eq!(m.get(w), Some(*n));
    }
}

#[test]
fn indexer_skips_only_the_first_words_window() {
    let m = map(&[("fido", 4)]);
    let toks: Vec<String> = vec!["fido".to_string()];
    let r = indexer(&toks, &m);
    assert_eq!(
        windows(&r.windows),
        vec![vec![NO_WORD, NO_WORD, 4, NO_WORD], vec![NO_WORD, 4, NO_WORD, NO_WORD]]
    );
    let toks: Vec<String> = ["fido", "fido", "fido"].iter().map(|s| s.to_string()).collect();
    let r = indexer(&toks, &m);
    assert_eq!(r.windows.len(), 4);
    assert_eq!(windows(&r.windows)[1], vec![NO_WORD, 4, 4, 4]);
}
