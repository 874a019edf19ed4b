use iexplorer::text::{parser, remove_punctuation};
use iexplorer::tokens;

fn words(v: &[&str]) -> Vec<String> {
    v.iter().map(|s| s.to_string()).collect()
}

#[test]
fn parser_strips_punctuation_and_lowers() {
    assert_eq!(
        parser("Is the password, swiftfido?".to_string()),
        words(&["is", "the", "password", "swiftfido"])
    );
}

#[test]
fn parser_keeps_empty_words_between_spaces() {
    assert_eq!(parser("Hello  World".to_string()), words(&["hello", "", "world"]));
}

#[test]
fn parser_of_empty_sentence_is_one_empty_word() {
    assert_eq!(parser(String::new()), words(&[""]));
}

#[test]
fn parser_joins_across_removed_punctuation() {
    assert_eq!(parser("(A.B) \"C;D:E'F\"".to_string()), words(&["ab", "cdef"]));
}

#[test]
fn parser_lowercases_non_ascii() {
    assert_eq!(parser("ÉCOLE Straße".to_string()), words(&["école", "straße"]));
}

#[test]
fn remove_punctuation_keeps_other_characters() {
    assert_eq!(remove_punctuation("a(b)c,d\"e.f;g?h:i'j k!"), "abcdefghij k!");
}

#[test]
fn word_count_is_space_count_plus_one() {
    let s = "one two  three ";
    assert_eq!(parser(s.to_string()).len(), s.matches(' ').count() + 1);
}

#[test]
fn tokens_parser_splits_at_spaces() {
    assert_eq!(
        tokens::parser("This is a test purpose sentence"),
        vec!["This", "is", "a", "test", "purpose", "sentence"]
    );
}

#[test]
fn tokens_parser_keeps_empty_slices() {
    assert_eq!(tokens::parser(" a  b "), vec!["", "a", "", "b", ""]);
}

#[test]
fn tokens_joined_give_back_the_sentence() {
    let s = "x  y z ";
    assert_eq!(tokens::parser(s).join(" "), s);
}

#[test]
fn stemmer_drops_filler_words() {
    let strings = tokens::parser("This is a test purpose sentence");
    assert_eq!(tokens::stemmer(strings), vec!["This", "is", "test", "sentence"]);
}

#[test]
fn stemmer_keeps_case_sensitive_words() {
    assert_eq!(
        tokens::stemmer(vec!["About", "about", "all", "almost", "alls", ""]),
        vec!["About", "alls", ""]
    );
}

#[test]
fn stemmer_of_only_fillers_is_empty() {
    let all = vec![
        "a", "about", "above", "across", "after", "afterwards", "again", "against", "all",
        "almost", "purpose",
    ];
    assert!(tokens::stemmer(all).is_empty());
}
