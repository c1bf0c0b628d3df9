use mailkeep::search::{
    apply_completion, compute_completion, cycle_from_lower, fixed_values, next_cycle_input,
    pick_completion,
};

#[test]
fn completion_empty_and_trailing_space() {
    assert_eq!(compute_completion("", 0), "");
    assert_eq!(compute_completion("from ", 0), "");
    assert_eq!(compute_completion("!", 0), "");
}

#[test]
fn completion_field_name_prefix() {
    assert_eq!(compute_completion("fol", 0), "der:");
    assert_eq!(compute_completion("subj", 0), "ect:");
    assert_eq!(compute_completion("account", 0), ":");
}

#[test]
fn completion_ambiguous_field_prefix_cycles_alphabetical() {
    assert_eq!(compute_completion("a", 0), "ccount:");
    assert_eq!(compute_completion("a", 1), "fter:");
    assert_eq!(compute_completion("a", 2), "ttachments:");
    assert_eq!(compute_completion("a", 3), "ccount:");
}

#[test]
fn completion_open_ended_field_after_colon_is_empty() {
    assert_eq!(compute_completion("from:", 0), "");
    assert_eq!(compute_completion("from:amazon", 0), "");
    assert_eq!(compute_completion("subject:order", 0), "");
}

#[test]
fn completion_fixed_value_fields() {
    assert_eq!(compute_completion("has:att", 0), "achment");
    assert_eq!(compute_completion("has:", 0), "");
    assert_eq!(compute_completion("attachments:n", 0), "one");
    assert_eq!(compute_completion("attachments:s", 0), "ome");
    assert_eq!(compute_completion("attachments:x", 0), "");
}

#[test]
fn completion_negated_field_prefix() {
    assert_eq!(compute_completion("!fol", 0), "der:");
    assert_eq!(compute_completion("!has:att", 0), "achment");
}

#[test]
fn completion_uses_last_word() {
    assert_eq!(compute_completion("from:amazon fol", 0), "der:");
}

#[test]
fn apply_completion_appends_to_last_token() {
    assert_eq!(apply_completion("fol", "der:"), "folder:");
    assert_eq!(apply_completion("!fol", "der:"), "!folder:");
    assert_eq!(apply_completion("from:amazon fol", "der:"), "from:amazon folder:");
    assert_eq!(apply_completion("has:att", "achment"), "has:attachment");
    assert_eq!(apply_completion("from:amazon", ""), "from:amazon");
}

#[test]
fn next_cycle_input_cycles_fields() {
    assert_eq!(next_cycle_input("account:", "a", 1), Some("after:".to_string()));
    assert_eq!(next_cycle_input("after:", "a", 2), Some("attachments:".to_string()));
    assert_eq!(next_cycle_input("attachments:", "a", 3), Some("account:".to_string()));
}

#[test]
fn next_cycle_input_single_match_is_none() {
    assert_eq!(next_cycle_input("folder:", "fol", 1), None);
}

#[test]
fn next_cycle_input_preserves_prefix_tokens_and_negation() {
    assert_eq!(next_cycle_input("from:x account:", "a", 1), Some("from:x after:".to_string()));
    assert_eq!(next_cycle_input("!account:", "!a", 1), Some("!after:".to_string()));
}

#[test]
fn next_cycle_input_attachments_values_cycle() {
    assert_eq!(next_cycle_input("attachments:none", "attachments:n", 1), None);
    assert_eq!(next_cycle_input("attachments:none", "attachments:", 1), Some("attachments:some".to_string()));
    assert_eq!(next_cycle_input("attachments:some", "attachments:", 2), Some("attachments:none".to_string()));
}

#[test]
fn completion_is_case_insensitive_for_fields() {
    assert_eq!(compute_completion("FOL", 0), "der:");
    assert_eq!(compute_completion("HAS:ATT", 0), "achment");
}

#[test]
fn fixed_values_of_fields() {
    assert_eq!(fixed_values("Attachments"), Some(vec!["none", "some"]));
    assert_eq!(fixed_values("has"), Some(vec!["attachment"]));
    assert_eq!(fixed_values("from"), None);
}

#[test]
fn completion_steps_after_lowercasing() {
    assert_eq!(pick_completion(&vec!["none", "some"], "s", 0), Some("ome".to_string()));
    assert_eq!(pick_completion(&vec!["none", "some"], "x", 0), None);
    assert_eq!(pick_completion(&vec!["account", "after"], "a", 3), Some("fter".to_string()));
    assert_eq!(cycle_from_lower("x ", true, "a", 1), Some("x !after:".to_string()));
    assert_eq!(cycle_from_lower("", false, "attachments:", 0), Some("attachments:none".to_string()));
    assert_eq!(cycle_from_lower("", false, "fol", 0), None);
}
