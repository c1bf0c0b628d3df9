use mailkeep::password::{make_password, password_from_draws, password_is_valid, password_requirements};

#[test]
fn requirements_report_each_rule() {
    let r = password_requirements("abc");
    assert_eq!(r.len(), 5);
    assert_eq!(r[0], ("At least 12 characters".to_string(), false));
    assert_eq!(r[1].1, false);
    assert_eq!(r[2], ("One lowercase letter (a–z)".to_string(), true));
    assert_eq!(r[3].1, false);
    assert_eq!(r[4], ("One special character (!@#$%^&*…)".to_string(), false));
}

#[test]
fn validity_needs_every_rule() {
    assert!(password_is_valid("Str0ng!Password"));
    assert!(!password_is_valid("Str0ngPassword1"));
    assert!(!password_is_valid("short!A1a"));
    assert!(!password_is_valid("ALLUPPER!1234"));
    // length is counted in characters: eleven characters, twelve bytes
    assert!(!password_is_valid("Aé1!aaaaaaa"));
}

#[test]
fn generated_passwords_are_valid() {
    for _ in 0..50 {
        let pw = make_password();
        assert_eq!(pw.chars().count(), 16);
        assert!(password_is_valid(&pw), "{pw}");
    }
}

#[test]
fn requirement_list_from_classes() {
    let r = mailkeep::password::requirements_list(true, false, true, false, true);
    let oks: Vec<bool> = r.iter().map(|x| x.1).collect();
    assert_eq!(oks, vec![true, false, true, false, true]);
    assert_eq!(r[3].0, "One digit (0–9)");
}

#[test]
fn rules_count_characters_and_ascii_letters() {
    let r = password_requirements("ÄÖÜäöü1!");
    assert_eq!(r[0], ("At least 12 characters".to_string(), false));
    assert!(!r[1].1);
    assert!(!r[2].1);
    assert!(r[3].1);
    assert!(r[4].1);
    assert!(!password_is_valid("ÄÖÜäöü1!"));
    assert!(!password_is_valid("ÄÖÜäöü1!xxxxxxxx"));
    assert!(password_is_valid("Äb1!aaaaaaaZ"));
}

#[test]
fn password_from_given_draws() {
    let no_swap: Vec<usize> = (1..16).rev().collect();
    assert_eq!(password_from_draws([0, 0, 0, 0], &vec![0; 12], &no_swap), "Aa0!AAAAAAAAAAAA");
    let rest: Vec<usize> = (0..12).collect();
    assert_eq!(password_from_draws([0, 0, 0, 0], &rest, &vec![0; 15]), "a0!ABCDEFGHIJKLA");
    let last: Vec<usize> = (76..88).rev().collect();
    assert_eq!(password_from_draws([25, 25, 9, 25], &last, &no_swap), "Zz9??><.,:;|}{][");
}
