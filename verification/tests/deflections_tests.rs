use iexplorer::deflections::{
    answerer, check_for_funny_values, deflection_at, generate_deflection, initial_password,
    check_for_funny_values_where_defined,
    DeflectDict, Deflection, DeflectionType, Password,
};

fn dict(n: usize) -> DeflectDict {
    DeflectDict {
        items: (0..n).map(|i| Deflection { answer: format!("a{}", i), vector: vec![i as u32] }).collect(),
    }
}

fn defined(q: &str, p: &Password) -> bool {
    let mut copy = Password { val: p.val.clone() };
    let r = check_for_funny_values_where_defined(q, &mut copy, false);
    if r.is_none() {
        assert_eq!(copy.val, p.val);
    }
    r.is_some()
}

fn password(s: &str) -> Password {
    Password { val: s.to_string() }
}

#[test]
fn no_match_answers_come_from_positions_three_to_six() {
    let d = dict(9);
    for _ in 0..200 {
        let a = generate_deflection(DeflectionType::NoMatch, &d);
        assert!(["a3", "a4", "a5", "a6"].contains(&a.as_str()), "{}", a);
    }
}

#[test]
fn stage_too_low_answers_come_from_positions_zero_to_two() {
    let d = dict(3);
    for _ in 0..200 {
        let a = generate_deflection(DeflectionType::StageTooLow, &d);
        assert!(["a0", "a1", "a2"].contains(&a.as_str()), "{}", a);
    }
}

#[test]
fn answerer_gives_the_answer_when_allowed() {
    let d = dict(7);
    assert_eq!(answerer(true, "Fido".to_string(), 3, 3, &d), "Fido");
}

#[test]
fn answerer_deflects_when_not_confident() {
    let d = dict(7);
    let a = answerer(false, "Fido".to_string(), 0, 10, &d);
    assert!(["a3", "a4", "a5", "a6"].contains(&a.as_str()));
}

#[test]
fn answerer_deflects_when_stage_too_low() {
    let d = dict(7);
    let a = answerer(true, "Fido".to_string(), 9, 8, &d);
    assert!(["a0", "a1", "a2"].contains(&a.as_str()));
}

#[test]
fn farnan_line_brings_the_blue_screen() {
    let mut p = initial_password();
    assert!(check_for_funny_values("farnan is great", &mut p, true));
    assert_eq!(p.val, "swiftfido3301");
}

#[test]
fn ordinary_line_changes_nothing() {
    let mut p = initial_password();
    assert!(defined("hello there", &p));
    assert!(!check_for_funny_values("hello there", &mut p, true));
    assert_eq!(p.val, "swiftfido3301");
}

#[test]
fn wrong_guess_replaces_password_when_lucky() {
    // bytes 18.. of the line are "iftfido"; the last 'i' of the password is
    // at byte 6 and "ido3301" differs from the guess.
    let mut p = initial_password();
    assert!(defined("is the password swiftfido", &p));
    assert!(!check_for_funny_values("is the password swiftfido", &mut p, true));
    assert_eq!(p.val, "iftfido");
}

#[test]
fn wrong_guess_keeps_password_without_luck() {
    let mut p = initial_password();
    check_for_funny_values("is the password swiftfido", &mut p, false);
    assert_eq!(p.val, "swiftfido3301");
}

#[test]
fn right_guess_keeps_password() {
    let mut p = initial_password();
    assert!(defined("is the password xx301", &p));
    check_for_funny_values("is the password xx301", &mut p, true);
    assert_eq!(p.val, "swiftfido3301");
}

#[test]
fn last_form_guess_is_debug_rendered() {
    // bytes 1..6 of the line are "s it "; rendered as "\"s it \"", whose first
    // character '"' occurs in the password at byte 1.
    let mut p = password("a\"bcdefgh");
    assert!(defined("is it the password", &p));
    check_for_funny_values("is it the password", &mut p, true);
    assert_eq!(p.val, "\"s it \"");
}

#[test]
fn last_form_guess_without_match_keeps_password() {
    let mut p = initial_password();
    check_for_funny_values("is it the password", &mut p, true);
    assert_eq!(p.val, "swiftfido3301");
}

#[test]
fn riddle_cannot_run_on_short_lines() {
    let p = initial_password();
    assert!(!defined("is", &p));
    assert!(!defined("is the", &p));
    assert!(!defined("Is the password", &p));
}

#[test]
fn riddle_cannot_run_past_the_password_end() {
    // the last '3' is at byte 10; four bytes from there pass the end.
    let p = initial_password();
    assert!(!defined("is the password xx3301", &p));
}

#[test]
fn riddle_cannot_run_on_empty_guess_with_a_password() {
    let p = initial_password();
    assert!(!defined("is the password xx", &p));
    assert!(defined("is the password xx", &password("")));
}

#[test]
fn riddle_respects_character_boundaries() {
    let p = initial_password();
    assert!(defined("is the password éx", &p));
    assert!(!defined("is the password xé", &p));
}

#[test]
fn the_drawn_position_gives_that_answer() {
    let d = dict(7);
    assert_eq!(deflection_at(DeflectionType::NoMatch, 3, &d), "a3");
    assert_eq!(deflection_at(DeflectionType::NoMatch, 6, &d), "a6");
    assert_eq!(deflection_at(DeflectionType::StageTooLow, 0, &d), "a0");
    assert_eq!(deflection_at(DeflectionType::StageTooLow, 2, &d), "a2");
}
